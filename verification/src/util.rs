//! Table versions and locations.

use vstd::prelude::*;

use crate::text;

verus! {

/// The number that stands for a table version: -1 where there is none, and the version as a
/// 64-bit two's complement number otherwise.
pub open spec fn signed_version(v: Option<u64>) -> int {
    match v {
        Some(x) => if x <= i64::MAX {
            x as int
        } else {
            x - 0x1_0000_0000_0000_0000
        },
        None => -1,
    }
}

/// The version as an `i64`; -1 where the table has none.
pub fn version_to_i64(v: Option<u64>) -> (r: i64)
    ensures
        r == signed_version(v),
{
    match v {
        Some(x) => if x <= i64::MAX as u64 {
            x as i64
        } else {
            (x as i128 - 0x1_0000_0000_0000_0000) as i64
        },
        None => -1,
    }
}

// ---------------------------------------------------------------------------
// Table locations
// ---------------------------------------------------------------------------

/// Why a table cannot be located.
#[derive(Debug, Clone, PartialEq, Eq)]
pub struct InvalidTableUri {
    pub uri: String,
}

impl InvalidTableUri {
    /// The message that the user is shown.
    pub fn message(&self) -> (r: String)
        ensures
            r@ == "invalid table URI: "@ + self.uri@,
    {
        let mut r = "invalid table URI: ".to_string();
        r.append(self.uri.as_str());
        r
    }
}

/// The normal form of the absolute URL `uri`; `None` where it is none.
pub uninterp spec fn url_text(uri: Seq<char>) -> Option<Seq<char>>;

/// Whether `uri` is a path and cannot be a URL: it begins as a path does, or has no scheme.
pub open spec fn local_path(uri: Seq<char>) -> bool {
    text::begins_with(uri, "/"@) || text::begins_with(uri, "."@) || !uri.contains(':')
}

/// The normal form of the absolute URL `uri`; `None` where it is none, as every path.
pub open spec fn named_url(uri: Seq<char>) -> Option<Seq<char>> {
    if local_path(uri) {
        None
    } else {
        url_text(uri)
    }
}

/// Calls `url::Url::parse` and gives the URL as text. Claimed is that the result depends on
/// `uri` alone, and that a text is no URL where it begins with `/` or `.` or has no colon: an
/// absolute URL begins with the letters of a scheme and a colon.
#[verifier::external_body]
fn parse_url(uri: &str) -> (r: Option<String>)
    ensures
        match r {
            Some(t) => url_text(uri@) == Some(t@),
            None => url_text(uri@) is None,
        },
        local_path(uri@) ==> r is None,
{
    match url::Url::parse(uri) {
        Ok(u) => Some(u.to_string()),
        Err(_) => None,
    }
}

/// Whether `c` stands for itself in a URL: an ASCII letter, a digit, `-`, `_` or `.`.
pub open spec fn plain_char(c: char) -> bool {
    'a' <= c <= 'z' || 'A' <= c <= 'Z' || '0' <= c <= '9' || c == '-' || c == '_' || c == '.'
}

/// Whether `name` is a name of a path that stands for itself in a URL.
pub open spec fn plain_name(name: Seq<char>) -> bool {
    &&& name.len() > 0
    &&& name != "."@
    &&& forall|i: int| 0 <= i < name.len() ==> plain_char(#[trigger] name[i])
}

/// Whether `path` begins at the root and is made of names that stand for themselves in a URL.
pub open spec fn plain_path(path: Seq<char>) -> bool {
    &&& text::begins_with(path, "/"@)
    &&& forall|i: int|
        0 <= i < text::pieces(path.skip(1), '/').len() ==> plain_name(
            #[trigger] text::pieces(path.skip(1), '/')[i],
        )
}

/// Whether `url` is the URL of the file at `path`: it has the scheme `file` and, where the path
/// is plain, goes on with the path as it is.
pub open spec fn is_file_url(path: Seq<char>, url: Seq<char>) -> bool {
    &&& text::begins_with(url, "file://"@)
    &&& plain_path(path) ==> url == "file://"@ + path
}

/// Calls `url::Url::from_file_path` and gives the URL as text: one of the scheme `file` that
/// has each name of the path behind a slash, with the characters in it encoded that a URL does
/// not take as they are. Claimed is what the URL is where no name needs encoding. Which paths are
/// absolute depends on the machine, and so does whether there is a URL: one with a drive letter
/// is absolute on Windows alone, one without is so on the other systems.
#[verifier::external_body]
fn file_url(path: &str) -> (r: Option<String>)
    ensures
        r matches Some(t) ==> is_file_url(path@, t@),
{
    match url::Url::from_file_path(path) {
        Ok(u) => Some(u.to_string()),
        Err(_) => None,
    }
}

/// The URL of a table, where `parsed` is the location as a URL and `file` the location as a
/// path, each where it is one.
pub fn choose_table_url(uri: &str, parsed: Option<String>, file: Option<String>) -> (r: Result<
    String,
    InvalidTableUri,
>)
    ensures
        match (parsed, file) {
            (Some(u), _) => r == Ok::<String, InvalidTableUri>(u),
            (None, Some(u)) => r == Ok::<String, InvalidTableUri>(u),
            (None, None) => r matches Err(e) && e.uri@ == uri@,
        },
{
    match parsed {
        Some(u) => Ok(u),
        None => match file {
            Some(u) => Ok(u),
            None => Err(InvalidTableUri { uri: uri.to_string() }),
        },
    }
}

/// A path without the `./` at its beginning, where it has one.
pub open spec fn without_dot(path: Seq<char>) -> Seq<char> {
    if text::begins_with(path, "./"@) {
        path.skip(2)
    } else {
        path
    }
}

/// A path as seen from the directory `directory`: itself where it begins at the root.
pub open spec fn path_from(directory: Seq<char>, path: Seq<char>) -> Seq<char> {
    if text::begins_with(path, "/"@) {
        path
    } else if directory.len() > 0 && directory.last() == '/' {
        directory + without_dot(path)
    } else {
        directory + "/"@ + without_dot(path)
    }
}

/// A path as seen from the directory `directory`: itself where it begins at the root.
pub fn absolute_path(directory: &str, path: &str) -> (r: String)
    ensures
        r@ == path_from(directory@, path@),
{
    if text::starts_with(path, "/") {
        return path.to_string();
    }
    let mut r = directory.to_string();
    let ds = text::chars_of(directory);
    if ds.len() == 0 || ds[ds.len() - 1] != '/' {
        r.append("/");
    }
    if text::starts_with(path, "./") {
        let cs = text::chars_of(path);
        proof {
            reveal_strlit("./");
            assert(cs@.subrange(2, cs@.len() as int) =~= path@.skip(2));
        }
        r.append(text::string_of(&cs, 2, cs.len()).as_str());
    } else {
        r.append(path);
    }
    r
}

/// The URL of the table at `uri`, which is an absolute URL or a path. A path that does not begin
/// at the root is seen from the directory `directory`.
pub fn parse_table_uri(uri: &str, directory: &str) -> (r: Result<String, InvalidTableUri>)
    ensures
        match named_url(uri@) {
            Some(t) => r matches Ok(u) && u@ == t,
            None => match r {
                Ok(u) => is_file_url(path_from(directory@, uri@), u@),
                Err(e) => e.uri@ == uri@,
            },
        },
{
    let parsed = parse_url(uri);
    if parsed.is_some() {
        return choose_table_url(uri, parsed, None);
    }
    choose_table_url(uri, None, file_url(absolute_path(directory, uri).as_str()))
}

/// Where the pieces between slashes are made of plain characters, so is the whole but for the
/// slashes.
proof fn lemma_plain_chars(s: Seq<char>)
    requires
        forall|i: int, j: int|
            0 <= i < text::pieces(s, '/').len() && 0 <= j < text::pieces(s, '/')[i].len()
                ==> plain_char(#[trigger] text::pieces(s, '/')[i][j]),
    ensures
        forall|i: int| 0 <= i < s.len() ==> #[trigger] s[i] == '/' || plain_char(s[i]),
    decreases s.len(),
{
    if s.len() > 0 {
        let parts = text::pieces(s, '/');
        let before = text::pieces(s.drop_last(), '/');
        text::lemma_pieces_nonempty(s.drop_last(), '/');
        let k = before.len() - 1;
        assert forall|i: int, j: int|
            0 <= i < before.len() && 0 <= j < before[i].len() implies plain_char(
            #[trigger] before[i][j],
        ) by {
            if i < k || s.last() == '/' {
                assert(parts[i] == before[i]);
            } else {
                assert(parts[i] == before[i].push(s.last()));
                assert(parts[i][j] == before[i][j]);
            }
        }
        lemma_plain_chars(s.drop_last());
        if s.last() != '/' {
            assert(parts[k] == before[k].push(s.last()));
            assert(plain_char(parts[k][before[k].len() as int]));
        }
        assert forall|i: int| 0 <= i < s.len() implies #[trigger] s[i] == '/' || plain_char(
            s[i],
        ) by {
            if i < s.len() - 1 {
                assert(s.drop_last()[i] == s[i]);
            }
        }
    }
}

/// A table at a relative path of plain names is found below a plain directory, whether or not the
/// path begins with `./`.
pub proof fn lemma_relative_path(directory: Seq<char>, path: Seq<char>)
    requires
        plain_path(directory),
        plain_path("/"@ + path),
    ensures
        named_url(path) is None,
        named_url("./"@ + path) is None,
        path_from(directory, path) == directory + "/"@ + path,
        path_from(directory, "./"@ + path) == directory + "/"@ + path,
        plain_path(directory + "/"@ + path),
{
    reveal_strlit("/");
    reveal_strlit("./");
    reveal_strlit(".");
    let none = Seq::<char>::empty();
    let parts = text::pieces(path, '/');
    let first = directory.skip(1);
    let above = text::pieces(first, '/');
    assert(("/"@ + path).skip(1) =~= path);
    text::lemma_pieces_nonempty(path, '/');
    text::lemma_pieces_nonempty(first, '/');
    assert(text::pieces(none, '/') =~= seq![none]);
    assert(plain_name(parts[0]));
    if text::begins_with(path, "/"@) {
        assert(path.take(1)[0] == '/');
        assert(none.push('/') + path.skip(1) =~= path);
        text::lemma_pieces_of_both(none, path.skip(1), '/');
        assert(parts[0] == none);
    }
    if text::begins_with(path, "./"@) {
        assert(path.take(2)[0] == '.' && path.take(2)[1] == '/');
        let dot = none.push('.');
        assert(dot.push('/') + path.skip(2) =~= path);
        text::lemma_pieces_of_both(dot, path.skip(2), '/');
        assert(dot.drop_last() =~= none);
        assert(text::pieces(dot, '/') =~= seq![dot]);
        assert(parts[0] == dot);
        assert(dot =~= "."@);
    }
    assert(directory.take(1)[0] == '/');
    assert(plain_name(above[above.len() - 1]));
    if directory.last() == '/' {
        if first.len() == 0 {
            assert(first =~= none);
        } else {
            assert(first.drop_last().push('/') + none =~= first);
            text::lemma_pieces_of_both(first.drop_last(), none, '/');
        }
        assert(above[above.len() - 1] == none);
    }
    assert forall|i: int, j: int| 0 <= i < parts.len() && 0 <= j < parts[i].len() implies plain_char(
        #[trigger] parts[i][j],
    ) by {
        assert(plain_name(parts[i]));
    }
    lemma_plain_chars(path);
    assert(!path.contains(':'));
    let dotted = "./"@ + path;
    assert(dotted.take(2) =~= "./"@);
    assert(dotted.take(1) =~= "."@);
    assert(dotted[0] == '.');
    assert(!text::begins_with(dotted, "/"@)) by {
        assert(dotted.take(1)[0] == '.');
    }
    assert(dotted.skip(2) =~= path);
    let whole = directory + "/"@ + path;
    assert(whole.skip(1) =~= first.push('/') + path);
    text::lemma_pieces_of_both(first, path, '/');
    assert(whole.take(1) =~= "/"@);
    assert forall|i: int| 0 <= i < text::pieces(whole.skip(1), '/').len() implies plain_name(
        #[trigger] text::pieces(whole.skip(1), '/')[i],
    ) by {
        if i < above.len() {
            assert(plain_name(above[i]));
        } else {
            assert(plain_name(parts[i - above.len()]));
        }
    }
}

/// A version that a signed number can hold is that number, and none is -1; every other version is
/// told from all others too, but for the one that -1 stands for.
pub proof fn lemma_signed_version(v: u64, w: u64)
    ensures
        v <= i64::MAX ==> signed_version(Some(v)) == v,
        signed_version(None) == -1,
        i64::MIN <= signed_version(Some(v)) <= i64::MAX,
        signed_version(Some(v)) == signed_version(Some(w)) ==> v == w,
        v <= i64::MAX ==> signed_version(Some(v)) != signed_version(None),
{
}

/// A path that begins at the root is seen alike from everywhere; any other is found in the
/// directory, with one slash between, and `./` before it makes no difference.
pub proof fn lemma_path_from(directory: Seq<char>, path: Seq<char>)
    ensures
        path_from(directory, "/"@ + path) == "/"@ + path,
        !text::begins_with(path, "/"@) && !text::begins_with(path, "./"@) ==> {
            &&& directory.len() > 0 && directory.last() == '/' ==> path_from(directory, path)
                == directory + path
            &&& directory.len() == 0 || directory.last() != '/' ==> path_from(directory, path)
                == directory + "/"@ + path
            &&& path_from(directory, "./"@ + path) == path_from(directory, path)
        },
{
    reveal_strlit("/");
    reveal_strlit("./");
    assert(("/"@ + path).take(1) =~= "/"@);
    let dotted = "./"@ + path;
    assert(dotted.take(2) =~= "./"@);
    assert(dotted.skip(2) =~= path);
    assert(!text::begins_with(dotted, "/"@)) by {
        assert(dotted.take(1)[0] == '.');
    }
}

/// A path is no URL, and where the text is no path, what it is as a URL decides alone.
pub proof fn lemma_named_url(uri: Seq<char>)
    ensures
        uri.len() > 0 && (uri[0] == '/' || uri[0] == '.') ==> named_url(uri) is None,
        !uri.contains(':') ==> named_url(uri) is None,
        uri.len() > 0 && uri[0] != '/' && uri[0] != '.' && uri.contains(':') ==> named_url(uri)
            == url_text(uri),
{
    reveal_strlit("/");
    reveal_strlit(".");
    if uri.len() > 0 {
        assert(uri.take(1)[0] == uri[0]);
        if uri[0] == '/' {
            assert(uri.take(1) =~= "/"@);
        }
        if uri[0] == '.' {
            assert(uri.take(1) =~= "."@);
        }
    }
}

} // verus!
