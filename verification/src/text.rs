//! Plain-text building blocks: trimming, splitting, searching and number formatting.
//!
//! Every function is specified over the sequence of characters of its argument.

use vstd::prelude::*;

verus! {

/// `String::push` appends the given character to the end of the string.
pub assume_specification[ String::push ](s: &mut String, c: char)
    ensures
        final(s)@ == old(s)@.push(c),
;

// ---------------------------------------------------------------------------
// Specifications
// ---------------------------------------------------------------------------

/// The characters with the Unicode property `White_Space`.
pub open spec fn white_space(c: char) -> bool {
    let u = c as u32;
    ||| 0x9 <= u <= 0xD
    ||| u == 0x20
    ||| u == 0x85
    ||| u == 0xA0
    ||| u == 0x1680
    ||| 0x2000 <= u <= 0x200A
    ||| u == 0x2028
    ||| u == 0x2029
    ||| u == 0x202F
    ||| u == 0x205F
    ||| u == 0x3000
}

/// `s` without its leading white space.
pub open spec fn trimmed_start(s: Seq<char>) -> Seq<char>
    decreases s.len(),
{
    if s.len() > 0 && white_space(s.first()) {
        trimmed_start(s.drop_first())
    } else {
        s
    }
}

/// `s` without its trailing white space.
pub open spec fn trimmed_end(s: Seq<char>) -> Seq<char>
    decreases s.len(),
{
    if s.len() > 0 && white_space(s.last()) {
        trimmed_end(s.drop_last())
    } else {
        s
    }
}

/// `s` without leading and trailing white space.
pub open spec fn trimmed(s: Seq<char>) -> Seq<char> {
    trimmed_end(trimmed_start(s))
}

/// The lower-case form of an ASCII capital; any other character is itself.
pub open spec fn lower_char(c: char) -> char {
    if 'A' <= c <= 'Z' {
        ((c as u32 + 32) as u32) as char
    } else {
        c
    }
}

/// `s` with its ASCII capitals in lower case.
pub open spec fn lower(s: Seq<char>) -> Seq<char> {
    Seq::new(s.len(), |i: int| lower_char(s[i]))
}

/// Whether `s` begins with `prefix`.
pub open spec fn begins_with(s: Seq<char>, prefix: Seq<char>) -> bool {
    prefix.len() <= s.len() && s.take(prefix.len() as int) == prefix
}

/// Whether `needle` occurs in `s` at position `i`.
pub open spec fn occurs_at(s: Seq<char>, needle: Seq<char>, i: int) -> bool {
    0 <= i && i + needle.len() <= s.len() && s.subrange(i, i + needle.len()) == needle
}

/// Whether `needle` occurs in `s`.
pub open spec fn occurs_in(s: Seq<char>, needle: Seq<char>) -> bool {
    exists|i: int| occurs_at(s, needle, i)
}

/// The first position from `i` on at which `needle` occurs in `s`.
pub open spec fn found_from(s: Seq<char>, needle: Seq<char>, i: int) -> Option<int>
    decreases s.len() + 1 - i,
{
    if i < 0 || i + needle.len() > s.len() {
        None
    } else if occurs_at(s, needle, i) {
        Some(i)
    } else {
        found_from(s, needle, i + 1)
    }
}

/// `s` without the occurrences of `c`.
pub open spec fn without(s: Seq<char>, c: char) -> Seq<char>
    decreases s.len(),
{
    if s.len() == 0 {
        Seq::empty()
    } else if s.last() == c {
        without(s.drop_last(), c)
    } else {
        without(s.drop_last(), c).push(s.last())
    }
}

/// The pieces of `s` between the occurrences of `sep`.
pub open spec fn pieces(s: Seq<char>, sep: char) -> Seq<Seq<char>>
    decreases s.len(),
{
    if s.len() == 0 {
        seq![Seq::<char>::empty()]
    } else {
        let before = pieces(s.drop_last(), sep);
        if s.last() == sep {
            before.push(Seq::<char>::empty())
        } else {
            before.drop_last().push(before.last().push(s.last()))
        }
    }
}

/// The non-empty trimmed pieces of `s` between the occurrences of `sep`, in order.
pub open spec fn trimmed_pieces(s: Seq<char>, sep: char) -> Seq<Seq<char>> {
    nonempty_trimmed(pieces(s, sep))
}

/// The trimmed members of `parts` that are not empty, in order.
pub open spec fn nonempty_trimmed(parts: Seq<Seq<char>>) -> Seq<Seq<char>>
    decreases parts.len(),
{
    if parts.len() == 0 {
        Seq::empty()
    } else {
        let before = nonempty_trimmed(parts.drop_last());
        let t = trimmed(parts.last());
        if t.len() == 0 {
            before
        } else {
            before.push(t)
        }
    }
}

/// The parts of `parts`, one after the other, with `sep` between neighbours.
pub open spec fn joined(parts: Seq<Seq<char>>, sep: Seq<char>) -> Seq<char>
    decreases parts.len(),
{
    if parts.len() == 0 {
        Seq::empty()
    } else if parts.len() == 1 {
        parts[0]
    } else {
        joined(parts.drop_last(), sep) + sep + parts.last()
    }
}

/// The character sequences of a sequence of strings.
pub open spec fn views(v: Seq<String>) -> Seq<Seq<char>> {
    Seq::new(v.len(), |i: int| v[i]@)
}

/// The decimal digit `d`.
pub open spec fn digit(d: int) -> char {
    ((48 + d) as u32) as char
}

/// `n` in decimal notation.
pub open spec fn decimal(n: nat) -> Seq<char>
    decreases n,
{
    if n < 10 {
        seq![digit(n as int)]
    } else {
        decimal(n / 10).push(digit((n % 10) as int))
    }
}

/// `i` in decimal notation, with a minus sign when it is negative.
pub open spec fn decimal_int(i: int) -> Seq<char> {
    if i < 0 {
        seq!['-'] + decimal((-i) as nat)
    } else {
        decimal(i as nat)
    }
}

/// `n` in decimal notation, filled up with leading zeros to `width` digits.
pub open spec fn decimal_padded(n: nat, width: nat) -> Seq<char> {
    if decimal(n).len() < width {
        Seq::new((width - decimal(n).len()) as nat, |i: int| '0') + decimal(n)
    } else {
        decimal(n)
    }
}

/// `s` between double quotes.
pub open spec fn quoted(s: Seq<char>) -> Seq<char> {
    seq!['"'] + s + seq!['"']
}

/// Each member of `parts` between double quotes.
pub open spec fn all_quoted(parts: Seq<Seq<char>>) -> Seq<Seq<char>> {
    Seq::new(parts.len(), |i: int| quoted(parts[i]))
}

// ---------------------------------------------------------------------------
// Characters and strings
// ---------------------------------------------------------------------------

/// The characters of `s`.
pub fn chars_of(s: &str) -> (r: Vec<char>)
    ensures
        r@ == s@,
{
    let mut r: Vec<char> = Vec::new();
    for c in it: s.chars()
        invariant
            r@ == it.seq().take(it.index() as int),
            it.seq() == s@,
    {
        r.push(c);
        assert(it.seq().take(it.index() as int + 1) =~= it.seq().take(it.index() as int).push(c));
    }
    assert(s@.take(s@.len() as int) =~= s@);
    r
}

/// Whether `a` and `b` hold the same characters.
pub fn same_text(a: &str, b: &str) -> (r: bool)
    ensures
        r == (a@ == b@),
{
    let x = chars_of(a);
    let y = chars_of(b);
    same_chars(&x, &y)
}

fn same_chars(x: &Vec<char>, y: &Vec<char>) -> (r: bool)
    ensures
        r == (x@ == y@),
{
    if x.len() != y.len() {
        return false;
    }
    let n: usize = x.len();
    for i in 0..n
        invariant
            n == x.len(),
            n == y.len(),
            x@.take(i as int) =~= y@.take(i as int),
    {
        if x[i] != y[i] {
            assert(x@[i as int] != y@[i as int]);
            return false;
        }
        assert(x@.take(i + 1) =~= x@.take(i as int).push(x@[i as int]));
        assert(y@.take(i + 1) =~= y@.take(i as int).push(y@[i as int]));
    }
    assert(x@ =~= x@.take(n as int));
    assert(y@ =~= y@.take(n as int));
    true
}

/// The characters of `cs` from position `from` up to position `to`.
pub fn string_of(cs: &Vec<char>, from: usize, to: usize) -> (r: String)
    requires
        from <= to <= cs.len(),
    ensures
        r@ == cs@.subrange(from as int, to as int),
{
    let mut r = String::new();
    let mut i: usize = from;
    while i < to
        invariant
            from <= i <= to <= cs.len(),
            r@ == cs@.subrange(from as int, i as int),
        decreases to - i,
    {
        r.push(cs[i]);
        assert(cs@.subrange(from as int, i + 1) =~= cs@.subrange(from as int, i as int).push(
            cs@[i as int],
        ));
        i += 1;
    }
    r
}

pub fn is_white_space(c: char) -> (r: bool)
    ensures
        r == white_space(c),
{
    let u: u32 = c as u32;
    (0x9 <= u && u <= 0xD) || u == 0x20 || u == 0x85 || u == 0xA0 || u == 0x1680 || (0x2000 <= u
        && u <= 0x200A) || u == 0x2028 || u == 0x2029 || u == 0x202F || u == 0x205F || u == 0x3000
}

// ---------------------------------------------------------------------------
// Trimming and case
// ---------------------------------------------------------------------------

/// Leading white space ends at the first position `k` that holds none.
pub proof fn lemma_trimmed_start_at(s: Seq<char>, k: int)
    requires
        0 <= k <= s.len(),
        forall|j: int| 0 <= j < k ==> white_space(#[trigger] s[j]),
        k < s.len() ==> !white_space(s[k]),
    ensures
        trimmed_start(s) == s.skip(k),
    decreases k,
{
    if k == 0 {
        assert(s.skip(0) =~= s);
    } else {
        let t = s.drop_first();
        assert forall|j: int| 0 <= j < k - 1 implies white_space(#[trigger] t[j]) by {
            assert(t[j] == s[j + 1]);
        }
        lemma_trimmed_start_at(t, k - 1);
        assert(t.skip(k - 1) =~= s.skip(k));
    }
}

/// Trailing white space begins behind the last position that holds none.
pub proof fn lemma_trimmed_end_at(s: Seq<char>, k: int)
    requires
        0 <= k <= s.len(),
        forall|j: int| k <= j < s.len() ==> white_space(#[trigger] s[j]),
        k > 0 ==> !white_space(s[k - 1]),
    ensures
        trimmed_end(s) == s.take(k),
    decreases s.len() - k,
{
    if k == s.len() {
        assert(s.take(k) =~= s);
    } else {
        let t = s.drop_last();
        assert(white_space(s[s.len() - 1]));
        lemma_trimmed_end_at(t, k);
        assert(t.take(k) =~= s.take(k));
    }
}

/// The position at which leading white space ends.
fn start_of_text(cs: &Vec<char>) -> (k: usize)
    ensures
        k <= cs.len(),
        trimmed_start(cs@) == cs@.skip(k as int),
{
    let n: usize = cs.len();
    let mut k: usize = 0;
    while k < n && is_white_space(cs[k])
        invariant
            k <= n,
            n == cs.len(),
            forall|j: int| 0 <= j < k ==> white_space(#[trigger] cs@[j]),
        decreases n - k,
    {
        k += 1;
    }
    proof {
        lemma_trimmed_start_at(cs@, k as int);
    }
    k
}

/// The position behind which, from `from` on, there is only white space.
fn end_of_text(cs: &Vec<char>, from: usize) -> (k: usize)
    requires
        from <= cs.len(),
    ensures
        from <= k <= cs.len(),
        trimmed_end(cs@.skip(from as int)) == cs@.subrange(from as int, k as int),
{
    let n: usize = cs.len();
    let mut k: usize = n;
    while k > from && is_white_space(cs[k - 1])
        invariant
            from <= k <= n,
            n == cs.len(),
            forall|j: int| k <= j < n ==> white_space(#[trigger] cs@[j]),
        decreases k,
    {
        k -= 1;
    }
    proof {
        let t = cs@.skip(from as int);
        lemma_trimmed_end_at(t, k - from);
        assert(t.take(k - from) =~= cs@.subrange(from as int, k as int));
    }
    k
}

/// `s` without leading and trailing white space.
pub fn trim(s: &str) -> (r: String)
    ensures
        r@ == trimmed(s@),
{
    let cs = chars_of(s);
    let from = start_of_text(&cs);
    let to = end_of_text(&cs, from);
    string_of(&cs, from, to)
}

/// `s` without leading white space.
pub fn trim_start(s: &str) -> (r: String)
    ensures
        r@ == trimmed_start(s@),
{
    let cs = chars_of(s);
    let from = start_of_text(&cs);
    assert(cs@.subrange(from as int, cs@.len() as int) =~= cs@.skip(from as int));
    string_of(&cs, from, cs.len())
}

fn lower_of(c: char) -> (r: char)
    ensures
        r == lower_char(c),
{
    if 'A' <= c && c <= 'Z' {
        ((c as u8) + 32) as char
    } else {
        c
    }
}

/// `s` with its ASCII capitals in lower case.
pub fn to_lower(s: &str) -> (r: String)
    ensures
        r@ == lower(s@),
{
    let cs = chars_of(s);
    let n: usize = cs.len();
    let mut r = String::new();
    for i in 0..n
        invariant
            n == cs.len(),
            cs@ == s@,
            r@ == lower(s@).take(i as int),
    {
        r.push(lower_of(cs[i]));
        assert(lower(s@).take(i + 1) =~= lower(s@).take(i as int).push(lower_char(s@[i as int])));
    }
    assert(lower(s@).take(n as int) =~= lower(s@));
    r
}

// ---------------------------------------------------------------------------
// Searching and splitting
// ---------------------------------------------------------------------------

/// Whether `needle` occurs in `cs` at position `at`.
fn matches_at(cs: &Vec<char>, needle: &Vec<char>, at: usize) -> (r: bool)
    requires
        at <= cs.len(),
    ensures
        r == occurs_at(cs@, needle@, at as int),
{
    let n: usize = needle.len();
    if n > cs.len() - at {
        return false;
    }
    for i in 0..n
        invariant
            n == needle.len(),
            at + n <= cs.len(),
            forall|j: int| 0 <= j < i ==> cs@[at + j] == #[trigger] needle@[j],
    {
        if cs[at + i] != needle[i] {
            assert(cs@.subrange(at as int, at + n)[i as int] != needle@[i as int]);
            return false;
        }
    }
    assert(cs@.subrange(at as int, at + n) =~= needle@);
    true
}

/// Whether `s` begins with `prefix`.
pub fn starts_with(s: &str, prefix: &str) -> (r: bool)
    ensures
        r == begins_with(s@, prefix@),
{
    let cs = chars_of(s);
    let p = chars_of(prefix);
    proof {
        assert(occurs_at(cs@, p@, 0) == begins_with(s@, prefix@));
    }
    matches_at(&cs, &p, 0)
}

/// Whether `needle` occurs in `s`.
pub fn contains(s: &str, needle: &str) -> (r: bool)
    ensures
        r == occurs_in(s@, needle@),
{
    let cs = chars_of(s);
    let p = chars_of(needle);
    let n: usize = cs.len();
    for i in 0..n
        invariant
            cs@ == s@,
            p@ == needle@,
            n == cs.len(),
            forall|j: int| 0 <= j < i ==> !occurs_at(s@, needle@, j),
    {
        if matches_at(&cs, &p, i) {
            return true;
        }
    }
    matches_at(&cs, &p, n)
}

/// The first position from `from` on at which `needle` occurs in `cs`.
pub fn find_from(cs: &Vec<char>, needle: &Vec<char>, from: usize) -> (r: Option<usize>)
    requires
        from <= cs.len(),
    ensures
        match r {
            Some(k) => found_from(cs@, needle@, from as int) == Some(k as int) && k + needle.len()
                <= cs.len(),
            None => found_from(cs@, needle@, from as int) is None,
        },
{
    let n: usize = cs.len();
    let mut i: usize = from;
    while i < n
        invariant
            from <= i <= n,
            n == cs.len(),
            found_from(cs@, needle@, from as int) == found_from(cs@, needle@, i as int),
        decreases n - i,
    {
        if needle.len() > n - i {
            return None;
        }
        if matches_at(cs, needle, i) {
            return Some(i);
        }
        i += 1;
    }
    if matches_at(cs, needle, n) {
        Some(n)
    } else {
        assert(needle@.len() != 0) by {
            if needle@.len() == 0 {
                assert(cs@.subrange(n as int, n as int) =~= needle@);
            }
        }
        None
    }
}

/// A sequence of pieces is never empty.
pub proof fn lemma_pieces_nonempty(s: Seq<char>, sep: char)
    ensures
        pieces(s, sep).len() > 0,
    decreases s.len(),
{
    if s.len() > 0 {
        lemma_pieces_nonempty(s.drop_last(), sep);
    }
}

/// What stands before a separator and what stands behind it are cut into pieces on their own.
pub proof fn lemma_pieces_of_both(a: Seq<char>, b: Seq<char>, sep: char)
    ensures
        pieces(a.push(sep) + b, sep) == pieces(a, sep) + pieces(b, sep),
    decreases b.len(),
{
    let s = a.push(sep) + b;
    if b.len() == 0 {
        assert(s =~= a.push(sep));
        assert(s.drop_last() =~= a);
        assert(pieces(s, sep) =~= pieces(a, sep) + pieces(b, sep));
    } else {
        assert(s.drop_last() =~= a.push(sep) + b.drop_last());
        lemma_pieces_of_both(a, b.drop_last(), sep);
        lemma_pieces_nonempty(b.drop_last(), sep);
        assert(pieces(s, sep) =~= pieces(a, sep) + pieces(b, sep));
    }
}

/// The pieces of `s` between the occurrences of `sep`.
pub fn split(s: &str, sep: char) -> (r: Vec<String>)
    ensures
        views(r@) == pieces(s@, sep),
{
    let cs = chars_of(s);
    let n: usize = cs.len();
    let mut r: Vec<String> = Vec::new();
    let mut cur = String::new();
    proof {
        assert(views(r@).push(cur@) =~= pieces(cs@.take(0), sep));
    }
    for i in 0..n
        invariant
            n == cs.len(),
            views(r@).push(cur@) == pieces(cs@.take(i as int), sep),
    {
        let ghost before = views(r@);
        let ghost held = cur@;
        proof {
            assert(cs@.take(i + 1).drop_last() =~= cs@.take(i as int));
            assert(cs@.take(i + 1).last() == cs@[i as int]);
            assert(before.push(held).drop_last() =~= before);
        }
        if cs[i] == sep {
            r.push(cur);
            cur = String::new();
            assert(views(r@) =~= before.push(held));
        } else {
            cur.push(cs[i]);
        }
    }
    let ghost before = views(r@);
    let ghost held = cur@;
    r.push(cur);
    proof {
        assert(views(r@) =~= before.push(held));
        assert(cs@.take(n as int) =~= s@);
    }
    r
}

/// None of the trimmed pieces that are kept is empty.
pub proof fn lemma_trimmed_pieces_nonempty(parts: Seq<Seq<char>>, i: int)
    requires
        0 <= i < nonempty_trimmed(parts).len(),
    ensures
        nonempty_trimmed(parts)[i].len() > 0,
    decreases parts.len(),
{
    let before = nonempty_trimmed(parts.drop_last());
    if i < before.len() {
        lemma_trimmed_pieces_nonempty(parts.drop_last(), i);
    }
}

/// The non-empty trimmed pieces of `s` between the occurrences of `sep`, in order.
pub fn split_trimmed(s: &str, sep: char) -> (r: Vec<String>)
    ensures
        views(r@) == trimmed_pieces(s@, sep),
{
    let parts = split(s, sep);
    let n: usize = parts.len();
    let mut r: Vec<String> = Vec::new();
    assert(views(r@) =~= nonempty_trimmed(views(parts@).take(0)));
    for i in 0..n
        invariant
            n == parts.len(),
            views(r@) == nonempty_trimmed(views(parts@).take(i as int)),
    {
        let ghost before = views(r@);
        let t = trim(parts[i].as_str());
        proof {
            assert(views(parts@).take(i + 1).drop_last() =~= views(parts@).take(i as int));
        }
        if t.as_str().is_empty() {
        } else {
            let ghost shown = t@;
            r.push(t);
            assert(views(r@) =~= before.push(shown));
        }
    }
    assert(views(parts@).take(n as int) =~= views(parts@));
    r
}

/// `s` without the occurrences of `c`.
pub fn remove_char(s: &str, c: char) -> (r: String)
    ensures
        r@ == without(s@, c),
{
    let cs = chars_of(s);
    let n: usize = cs.len();
    let mut r = String::new();
    for i in 0..n
        invariant
            n == cs.len(),
            r@ == without(cs@.take(i as int), c),
    {
        assert(cs@.take(i + 1).drop_last() =~= cs@.take(i as int));
        if cs[i] != c {
            r.push(cs[i]);
        }
    }
    assert(cs@.take(n as int) =~= cs@);
    r
}

// ---------------------------------------------------------------------------
// Composing
// ---------------------------------------------------------------------------

/// The parts, one after the other, with `sep` between neighbours.
pub fn join(parts: &Vec<String>, sep: &str) -> (r: String)
    ensures
        r@ == joined(views(parts@), sep@),
{
    let n: usize = parts.len();
    let mut r = String::new();
    let ghost all = views(parts@);
    assert(r@ =~= joined(all.take(0), sep@));
    for i in 0..n
        invariant
            n == parts.len(),
            all == views(parts@),
            r@ == joined(all.take(i as int), sep@),
    {
        proof {
            assert(all.take(i + 1).drop_last() =~= all.take(i as int));
            assert(all.take(i + 1).last() == all[i as int]);
        }
        if i > 0 {
            r.append(sep);
        }
        let ghost so_far = r@;
        r.append(parts[i].as_str());
        proof {
            if i == 0 {
                assert(so_far =~= Seq::<char>::empty());
                assert(r@ =~= all[0]);
            }
        }
    }
    assert(all.take(n as int) =~= all);
    r
}

fn digit_of(d: u64) -> (c: char)
    requires
        d < 10,
    ensures
        c == digit(d as int),
{
    (48 + (d as u8)) as char
}

/// Appends `n` in decimal notation.
pub fn push_u64(out: &mut String, n: u64)
    ensures
        final(out)@ == old(out)@ + decimal(n as nat),
    decreases n,
{
    if n >= 10 {
        push_u64(out, n / 10);
    }
    let ghost before = out@;
    out.push(digit_of(n % 10));
    proof {
        if n < 10 {
            assert(out@ =~= old(out)@ + decimal(n as nat));
        } else {
            assert(decimal(n as nat) == decimal((n / 10) as nat).push(digit((n % 10) as int)));
            assert(out@ =~= old(out)@ + decimal(n as nat));
        }
    }
}

/// Appends `n` in decimal notation.
pub fn push_usize(out: &mut String, n: usize)
    ensures
        final(out)@ == old(out)@ + decimal(n as nat),
{
    push_u64(out, n as u64);
}

/// Appends `i` in decimal notation, with a minus sign when it is negative.
pub fn push_i64(out: &mut String, i: i64)
    ensures
        final(out)@ == old(out)@ + decimal_int(i as int),
{
    if i < 0 {
        out.push('-');
        let ghost before = out@;
        let magnitude: u64 = (-(i as i128)) as u64;
        push_u64(out, magnitude);
        assert(out@ =~= old(out)@ + decimal_int(i as int));
    } else {
        push_u64(out, i as u64);
    }
}

/// Appends `n` in decimal notation, filled up with leading zeros to `width` digits.
pub fn push_padded(out: &mut String, n: u64, width: usize)
    ensures
        final(out)@ == old(out)@ + decimal_padded(n as nat, width as nat),
{
    let mut digits = String::new();
    push_u64(&mut digits, n);
    assert(digits@ =~= decimal(n as nat));
    let len: usize = chars_of(digits.as_str()).len();
    let mut k: usize = len;
    while k < width
        invariant
            len == digits@.len(),
            len <= k,
            len < width ==> k <= width,
            len >= width ==> k == len,
            out@ == old(out)@ + Seq::new((k - len) as nat, |i: int| '0'),
        decreases width - k,
    {
        out.push('0');
        k += 1;
        assert(out@ =~= old(out)@ + Seq::new((k - len) as nat, |i: int| '0'));
    }
    out.append(digits.as_str());
    assert(out@ =~= old(out)@ + decimal_padded(n as nat, width as nat));
}

/// Appends `s` between double quotes.
pub fn push_quoted(out: &mut String, s: &str)
    ensures
        final(out)@ == old(out)@ + quoted(s@),
{
    out.push('"');
    out.append(s);
    out.push('"');
    assert(out@ =~= old(out)@ + quoted(s@));
}

/// Each string of `names` between double quotes.
pub fn quote_all(names: &Vec<String>) -> (r: Vec<String>)
    ensures
        views(r@) == all_quoted(views(names@)),
{
    let n: usize = names.len();
    let mut r: Vec<String> = Vec::new();
    for i in 0..n
        invariant
            n == names.len(),
            r.len() == i,
            forall|j: int| 0 <= j < i ==> (#[trigger] r@[j])@ == quoted(names@[j]@),
    {
        let mut q = String::new();
        push_quoted(&mut q, names[i].as_str());
        assert(q@ =~= quoted(names@[i as int]@));
        r.push(q);
    }
    assert(views(r@) =~= all_quoted(views(names@)));
    r
}

/// Whether `name` is one of `names`.
pub fn is_among(names: &Vec<String>, name: &str) -> (r: bool)
    ensures
        r == views(names@).contains(name@),
{
    let n: usize = names.len();
    for i in 0..n
        invariant
            n == names.len(),
            forall|j: int| 0 <= j < i ==> (#[trigger] names@[j])@ != name@,
    {
        if same_text(names[i].as_str(), name) {
            assert(views(names@)[i as int] == name@);
            return true;
        }
    }
    false
}

/// A copy of `v`.
pub fn copy_strings(v: &Vec<String>) -> (r: Vec<String>)
    ensures
        r@ == v@,
{
    let n: usize = v.len();
    let mut r: Vec<String> = Vec::new();
    for i in 0..n
        invariant
            n == v.len(),
            r@ == v@.take(i as int),
    {
        r.push(v[i].clone());
        assert(v@.take(i + 1) =~= v@.take(i as int).push(v@[i as int]));
    }
    assert(v@.take(n as int) =~= v@);
    r
}

/// A copy of `o`.
pub fn copy_option(o: &Option<String>) -> (r: Option<String>)
    ensures
        r == *o,
{
    match o {
        Some(s) => Some(s.clone()),
        None => None,
    }
}

// ---------------------------------------------------------------------------
// Numbers are told by their decimal notation
// ---------------------------------------------------------------------------

/// The number that a sequence of decimal digits stands for.
pub open spec fn decimal_value(s: Seq<char>) -> int
    decreases s.len(),
{
    if s.len() == 0 {
        0
    } else {
        decimal_value(s.drop_last()) * 10 + (s.last() as int - 48)
    }
}

proof fn lemma_decimal_value(n: nat)
    ensures
        decimal_value(decimal(n)) == n,
    decreases n,
{
    if n < 10 {
        reveal_with_fuel(decimal_value, 2);
        assert(decimal(n).drop_last() =~= Seq::<char>::empty());
    } else {
        lemma_decimal_value(n / 10);
        assert(decimal(n).drop_last() =~= decimal(n / 10));
    }
}

proof fn lemma_value_of_zeros(k: nat, s: Seq<char>)
    ensures
        decimal_value(Seq::new(k, |i: int| '0') + s) == decimal_value(s),
    decreases k + s.len(),
{
    let zeros = Seq::new(k, |i: int| '0');
    if s.len() > 0 {
        lemma_value_of_zeros(k, s.drop_last());
        assert((zeros + s).drop_last() =~= zeros + s.drop_last());
    } else if k > 0 {
        let fewer = Seq::new((k - 1) as nat, |i: int| '0');
        lemma_value_of_zeros((k - 1) as nat, s);
        assert((zeros + s).drop_last() =~= fewer + s);
    } else {
        assert(zeros + s =~= s);
    }
}

/// Two numbers with the same decimal notation, filled up to the same width, are the same.
pub proof fn lemma_decimal_padded_injective(m: nat, n: nat, width: nat)
    requires
        decimal_padded(m, width) == decimal_padded(n, width),
    ensures
        m == n,
{
    lemma_decimal_value(m);
    lemma_decimal_value(n);
    if decimal(m).len() < width {
        lemma_value_of_zeros((width - decimal(m).len()) as nat, decimal(m));
    }
    if decimal(n).len() < width {
        lemma_value_of_zeros((width - decimal(n).len()) as nat, decimal(n));
    }
}

// ---------------------------------------------------------------------------
// What the operations on texts are for
// ---------------------------------------------------------------------------

/// The number that a decimal notation stands for is the number that it was made from, it is made
/// of digits, and it does not begin with a zero but for zero itself.
pub proof fn lemma_decimal(n: nat)
    ensures
        decimal_value(decimal(n)) == n,
        decimal(n).len() > 0,
        forall|i: int| 0 <= i < decimal(n).len() ==> '0' <= #[trigger] decimal(n)[i] <= '9',
        n > 0 ==> decimal(n)[0] != '0',
    decreases n,
{
    lemma_decimal_value(n);
    if n >= 10 {
        lemma_decimal(n / 10);
        assert(decimal(n) == decimal(n / 10).push(digit((n % 10) as int)));
        assert forall|i: int| 0 <= i < decimal(n).len() implies '0' <= #[trigger] decimal(n)[i]
            <= '9' by {
            if i < decimal(n / 10).len() {
                assert(decimal(n)[i] == decimal(n / 10)[i]);
            }
        }
        assert(decimal(n)[0] == decimal(n / 10)[0]);
    }
}

/// A number has as many digits as it takes: no more than `k` exactly where it is less than the
/// `k`-th power of ten.
pub proof fn lemma_decimal_length(n: nat, k: nat)
    requires
        k >= 1,
    ensures
        decimal(n).len() <= k <==> n < vstd::arithmetic::power::pow(10, k),
    decreases n,
{
    reveal(vstd::arithmetic::power::pow);
    let less = (k - 1) as nat;
    vstd::arithmetic::power::lemma_pow_positive(10, less);
    if n < 10 {
        assert(vstd::arithmetic::power::pow(10, k) >= 10);
    } else {
        assert(decimal(n).len() == decimal(n / 10).len() + 1);
        if k == 1 {
            lemma_decimal(n / 10);
            assert(vstd::arithmetic::power::pow(10, 0) == 1);
        } else {
            lemma_decimal_length(n / 10, less);
        }
    }
}

/// A negative number is told from a number by a minus sign, and the digits tell its size.
pub proof fn lemma_decimal_int(i: int)
    ensures
        i >= 0 ==> decimal_value(decimal_int(i)) == i && decimal_int(i)[0] != '-',
        i < 0 ==> decimal_int(i)[0] == '-' && decimal_value(decimal_int(i).skip(1)) == -i,
{
    if i >= 0 {
        lemma_decimal(i as nat);
    } else {
        lemma_decimal((-i) as nat);
        assert(decimal_int(i).skip(1) =~= decimal((-i) as nat));
    }
}

/// A number that is filled up has at least the width that is asked for and stands for the same
/// number; one that is wide enough is not changed.
pub proof fn lemma_decimal_padded(n: nat, width: nat)
    ensures
        decimal_padded(n, width).len() >= width,
        decimal_value(decimal_padded(n, width)) == n,
        decimal(n).len() >= width ==> decimal_padded(n, width) == decimal(n),
        decimal(n).len() < width ==> decimal_padded(n, width).len() == width,
        forall|i: int|
            0 <= i < decimal_padded(n, width).len() ==> '0' <= #[trigger] decimal_padded(
                n,
                width,
            )[i] <= '9',
{
    lemma_decimal(n);
    if decimal(n).len() < width {
        lemma_value_of_zeros((width - decimal(n).len()) as nat, decimal(n));
    }
}

/// Where the white space at the beginning of a text ends.
proof fn lemma_start_of_text(s: Seq<char>) -> (k: int)
    ensures
        0 <= k <= s.len(),
        forall|j: int| 0 <= j < k ==> white_space(#[trigger] s[j]),
        k < s.len() ==> !white_space(s[k]),
        trimmed_start(s) == s.skip(k),
    decreases s.len(),
{
    if s.len() > 0 && white_space(s.first()) {
        let k = lemma_start_of_text(s.drop_first());
        assert forall|j: int| 0 <= j < k + 1 implies white_space(#[trigger] s[j]) by {
            if j > 0 {
                assert(s.drop_first()[j - 1] == s[j]);
            }
        }
        assert(s.drop_first().skip(k) =~= s.skip(k + 1));
        k + 1
    } else {
        assert(s.skip(0) =~= s);
        0
    }
}

/// Where the white space at the end of a text begins.
proof fn lemma_end_of_text(s: Seq<char>) -> (k: int)
    ensures
        0 <= k <= s.len(),
        forall|j: int| k <= j < s.len() ==> white_space(#[trigger] s[j]),
        k > 0 ==> !white_space(s[k - 1]),
        trimmed_end(s) == s.take(k),
    decreases s.len(),
{
    if s.len() > 0 && white_space(s.last()) {
        let k = lemma_end_of_text(s.drop_last());
        assert forall|j: int| k <= j < s.len() implies white_space(#[trigger] s[j]) by {
            if j < s.len() - 1 {
                assert(s.drop_last()[j] == s[j]);
            }
        }
        if k > 0 {
            assert(s.drop_last()[k - 1] == s[k - 1]);
        }
        assert(s.drop_last().take(k) =~= s.take(k));
        k
    } else {
        assert(s.take(s.len() as int) =~= s);
        s.len() as int
    }
}

/// A trimmed text is a part of the text: what stands before and behind it is white space alone,
/// and it neither begins nor ends with any.
pub proof fn lemma_trimmed(s: Seq<char>) -> (r: (int, int))
    ensures
        0 <= r.0 <= r.1 <= s.len(),
        trimmed(s) == s.subrange(r.0, r.1),
        forall|j: int| 0 <= j < r.0 || r.1 <= j < s.len() ==> white_space(#[trigger] s[j]),
        r.0 < r.1 ==> !white_space(s[r.0]) && !white_space(s[r.1 - 1]),
{
    let a = lemma_start_of_text(s);
    let t = s.skip(a);
    let k = lemma_end_of_text(t);
    assert(t.take(k) =~= s.subrange(a, a + k));
    assert forall|j: int| 0 <= j < a || a + k <= j < s.len() implies white_space(
        #[trigger] s[j],
    ) by {
        if j >= a {
            assert(t[j - a] == s[j]);
        }
    }
    if k > 0 {
        assert(t[0] == s[a]);
        assert(t[k - 1] == s[a + k - 1]);
    }
    (a, a + k)
}

/// White space around a text makes no difference to what is left when it is trimmed.
pub proof fn lemma_trimmed_ignores_space(before: Seq<char>, s: Seq<char>, behind: Seq<char>)
    requires
        forall|j: int| 0 <= j < before.len() ==> white_space(#[trigger] before[j]),
        forall|j: int| 0 <= j < behind.len() ==> white_space(#[trigger] behind[j]),
        s.len() > 0,
        !white_space(s.first()),
        !white_space(s.last()),
    ensures
        trimmed(before + s + behind) == s,
{
    let all = before + s + behind;
    let a = before.len() as int;
    let n = s.len() as int;
    assert forall|j: int| 0 <= j < a implies white_space(#[trigger] all[j]) by {
        assert(all[j] == before[j]);
    }
    assert(all[a] == s[0]);
    lemma_trimmed_start_at(all, a);
    let t = all.skip(a);
    assert forall|j: int| n <= j < t.len() implies white_space(#[trigger] t[j]) by {
        assert(t[j] == behind[j - n]);
    }
    assert(t[n - 1] == s[n - 1]);
    lemma_trimmed_end_at(t, n);
    assert(t.take(n) =~= s);
}

/// A text in lower case has no ASCII capital, is as long as the text and differs from it in
/// capitals alone.
pub proof fn lemma_lower(s: Seq<char>, i: int)
    requires
        0 <= i < s.len(),
    ensures
        lower(s).len() == s.len(),
        !('A' <= lower(s)[i] <= 'Z'),
        'A' <= s[i] <= 'Z' ==> lower(s)[i] as u32 == s[i] as u32 + 32,
        !('A' <= s[i] <= 'Z') ==> lower(s)[i] == s[i],
        lower(lower(s)) == lower(s),
{
    assert forall|j: int| 0 <= j < s.len() implies lower_char(#[trigger] lower(s)[j]) == lower(
        s,
    )[j] by {
        assert(lower(s)[j] == lower_char(s[j]));
    }
    assert(lower(lower(s)) =~= lower(s));
}

/// A position that is found is one at which the text occurs, and it occurs at none before; where
/// none is found, it occurs at none.
pub proof fn lemma_found_from(s: Seq<char>, needle: Seq<char>, from: int, at: int)
    requires
        0 <= from <= at,
    ensures
        match found_from(s, needle, from) {
            Some(i) => {
                &&& from <= i
                &&& i + needle.len() <= s.len()
                &&& s.subrange(i, i + needle.len()) == needle
                &&& at < i ==> !(at + needle.len() <= s.len() && s.subrange(at, at + needle.len())
                    == needle)
            },
            None => !(at + needle.len() <= s.len() && s.subrange(at, at + needle.len()) == needle),
        },
    decreases s.len() + 1 - from,
{
    if from + needle.len() <= s.len() && !occurs_at(s, needle, from) && from < at {
        lemma_found_from(s, needle, from + 1, at);
    } else if from + needle.len() <= s.len() && !occurs_at(s, needle, from) {
        lemma_found_from(s, needle, from + 1, from + 1);
    }
}

/// A text that stands within another occurs in it.
pub proof fn lemma_occurs_within(a: Seq<char>, b: Seq<char>, c: Seq<char>)
    ensures
        occurs_in(a + b + c, b),
{
    let s = a + b + c;
    let i = a.len() as int;
    assert(s.subrange(i, i + b.len()) =~= b);
    assert(occurs_at(s, b, i));
}

/// What occurs in a part of a text occurs in the text.
pub proof fn lemma_occurs_in_part(a: Seq<char>, b: Seq<char>, c: Seq<char>, needle: Seq<char>)
    requires
        occurs_in(b, needle),
    ensures
        occurs_in(a + b + c, needle),
{
    let s = a + b + c;
    let i = choose|i: int| occurs_at(b, needle, i);
    assert(s.subrange(a.len() + i, a.len() + i + needle.len()) =~= b.subrange(
        i,
        i + needle.len(),
    ));
    assert(occurs_at(s, needle, a.len() + i));
}

/// A text from which a character is dropped holds that character no more, and all others as often
/// and in the order as before: it is put together from what is left of its parts.
pub proof fn lemma_without(s: Seq<char>, t: Seq<char>, c: char)
    ensures
        !without(s, c).contains(c),
        !s.contains(c) ==> without(s, c) == s,
        without(s + t, c) == without(s, c) + without(t, c),
        without(seq![c], c) == Seq::<char>::empty(),
    decreases s.len() + t.len(),
{
    reveal_with_fuel(without, 2);
    assert(seq![c].drop_last() =~= Seq::<char>::empty());
    if s.len() > 0 {
        lemma_without(s.drop_last(), Seq::empty(), c);
        let before = without(s.drop_last(), c);
        assert forall|i: int| 0 <= i < without(s, c).len() implies without(s, c)[i] != c by {
            if i < before.len() {
                assert(without(s, c)[i] == before[i]);
                assert(before.contains(before[i]));
            }
        }
        if !s.contains(c) {
            assert(s[s.len() - 1] == s.last());
            assert forall|i: int| 0 <= i < s.drop_last().len() implies s.drop_last()[i] != c by {
                assert(s[i] == s.drop_last()[i]);
            }
            assert(!s.drop_last().contains(c));
            assert(s.drop_last().push(s.last()) =~= s);
        }
    } else {
        assert(without(s, c) =~= s);
    }
    if t.len() == 0 {
        assert(s + t =~= s);
        assert(without(s, c) + without(t, c) =~= without(s, c));
    } else {
        lemma_without(s, t.drop_last(), c);
        assert((s + t).drop_last() =~= s + t.drop_last());
        assert(without(s + t, c) =~= without(s, c) + without(t, c));
    }
}

/// Pieces that are put together again with the separator between them give the text, and none of
/// them holds the separator.
pub proof fn lemma_pieces(s: Seq<char>, sep: char)
    ensures
        joined(pieces(s, sep), seq![sep]) == s,
        forall|i: int|
            0 <= i < pieces(s, sep).len() ==> !(#[trigger] pieces(s, sep)[i]).contains(sep),
    decreases s.len(),
{
    let parts = pieces(s, sep);
    let glue = seq![sep];
    if s.len() == 0 {
        assert(joined(parts, glue) =~= s);
    } else {
        let t = s.drop_last();
        let before = pieces(t, sep);
        lemma_pieces(t, sep);
        lemma_pieces_nonempty(t, sep);
        if s.last() == sep {
            assert(parts.drop_last() =~= before);
            assert(joined(parts, glue) == joined(before, glue) + glue + Seq::<char>::empty());
            assert(joined(parts, glue) =~= s);
        } else {
            let k = before.len() - 1;
            let longer = before[k].push(s.last());
            assert(parts.drop_last() =~= before.drop_last());
            assert(parts.last() == longer);
            if k == 0 {
                assert(joined(parts, glue) == longer);
                assert(joined(before, glue) == before[0]);
            } else {
                assert(joined(before, glue) == joined(before.drop_last(), glue) + glue
                    + before.last());
                assert(joined(parts, glue) == joined(parts.drop_last(), glue) + glue + longer);
            }
            assert(t.push(s.last()) =~= s);
            assert(joined(parts, glue) =~= s);
            assert forall|i: int| 0 <= i < parts.len() implies !(#[trigger] parts[i]).contains(
                sep,
            ) by {
                if i < k {
                    assert(parts[i] == before[i]);
                } else {
                    assert(!before[k].contains(sep));
                    assert forall|j: int| 0 <= j < longer.len() implies longer[j] != sep by {
                        if j < before[k].len() {
                            assert(before[k][j] == longer[j]);
                        }
                    }
                }
            }
        }
    }
}

/// A text without the separator is one piece.
pub proof fn lemma_one_piece(s: Seq<char>, sep: char)
    requires
        !s.contains(sep),
    ensures
        pieces(s, sep) == seq![s],
    decreases s.len(),
{
    if s.len() > 0 {
        assert(s[s.len() - 1] == s.last());
        assert forall|i: int| 0 <= i < s.drop_last().len() implies s.drop_last()[i] != sep by {
            assert(s[i] == s.drop_last()[i]);
        }
        lemma_one_piece(s.drop_last(), sep);
        assert(s.drop_last().push(s.last()) =~= s);
    } else {
        assert(s =~= Seq::<char>::empty());
    }
    assert(pieces(s, sep) =~= seq![s]);
}

/// The first piece of a text with a separator in it is what stands before the first one.
pub proof fn lemma_first_piece(a: Seq<char>, b: Seq<char>, sep: char)
    requires
        !a.contains(sep),
    ensures
        pieces(a.push(sep) + b, sep) == seq![a] + pieces(b, sep),
        pieces(a.push(sep) + b, sep)[0] == a,
{
    lemma_pieces_of_both(a, b, sep);
    lemma_one_piece(a, sep);
}

/// The members that are kept of a list are those of its parts, one part after the other; a member
/// alone is kept where it is not blank, without the white space around it.
pub proof fn lemma_nonempty_trimmed(a: Seq<Seq<char>>, b: Seq<Seq<char>>, s: Seq<char>)
    ensures
        nonempty_trimmed(a + b) == nonempty_trimmed(a) + nonempty_trimmed(b),
        nonempty_trimmed(seq![s]) == (if trimmed(s).len() > 0 {
            seq![trimmed(s)]
        } else {
            Seq::empty()
        }),
    decreases b.len(),
{
    reveal_with_fuel(nonempty_trimmed, 2);
    assert(seq![s].drop_last() =~= Seq::<Seq<char>>::empty());
    assert(nonempty_trimmed(Seq::<Seq<char>>::empty()).push(trimmed(s)) =~= seq![trimmed(s)]);
    if b.len() == 0 {
        assert(a + b =~= a);
        assert(nonempty_trimmed(a) + nonempty_trimmed(b) =~= nonempty_trimmed(a));
    } else {
        lemma_nonempty_trimmed(a, b.drop_last(), s);
        assert((a + b).drop_last() =~= a + b.drop_last());
        assert((a + b).last() == b.last());
        assert(nonempty_trimmed(a + b) =~= nonempty_trimmed(a) + nonempty_trimmed(b));
    }
}

/// A list that two lists are written into, with the separator between them, has the members of
/// both, in order.
pub proof fn lemma_trimmed_pieces_of_both(a: Seq<char>, b: Seq<char>, sep: char)
    ensures
        trimmed_pieces(a.push(sep) + b, sep) == trimmed_pieces(a, sep) + trimmed_pieces(b, sep),
{
    lemma_pieces_of_both(a, b, sep);
    lemma_nonempty_trimmed(pieces(a, sep), pieces(b, sep), a);
}

/// A list without the separator has one member, or none where it is blank.
pub proof fn lemma_trimmed_piece(s: Seq<char>, sep: char)
    requires
        !s.contains(sep),
    ensures
        trimmed_pieces(s, sep) == (if trimmed(s).len() > 0 {
            seq![trimmed(s)]
        } else {
            Seq::empty()
        }),
{
    lemma_one_piece(s, sep);
    lemma_nonempty_trimmed(Seq::empty(), Seq::empty(), s);
}

/// Parts that are put together in two goes, with the separator between, are put together.
pub proof fn lemma_joined_of_both(a: Seq<Seq<char>>, b: Seq<Seq<char>>, sep: Seq<char>)
    requires
        a.len() > 0,
        b.len() > 0,
    ensures
        joined(a + b, sep) == joined(a, sep) + sep + joined(b, sep),
    decreases b.len(),
{
    assert((a + b).drop_last() =~= a + b.drop_last());
    assert((a + b).last() == b.last());
    if b.len() == 1 {
        assert(a + b.drop_last() =~= a);
        assert(joined(b, sep) == b[0]);
    } else {
        lemma_joined_of_both(a, b.drop_last(), sep);
        assert(joined(a + b, sep) =~= joined(a, sep) + sep + joined(b, sep));
    }
}

/// One part alone is not changed.
pub proof fn lemma_joined_alone(s: Seq<char>, sep: Seq<char>)
    ensures
        joined(seq![s], sep) == s,
        joined(Seq::empty(), sep) == Seq::<char>::empty(),
{
}

/// Every part occurs in what the parts are put together to.
pub proof fn lemma_joined_holds_each(parts: Seq<Seq<char>>, sep: Seq<char>, i: int)
    requires
        0 <= i < parts.len(),
    ensures
        occurs_in(joined(parts, sep), parts[i]),
    decreases parts.len(),
{
    let none = Seq::<char>::empty();
    if parts.len() == 1 {
        lemma_occurs_within(none, parts[0], none);
        assert(none + parts[0] + none =~= parts[0]);
    } else if i == parts.len() - 1 {
        let before = joined(parts.drop_last(), sep) + sep;
        lemma_occurs_within(before, parts[i], none);
        assert(before + parts[i] + none =~= joined(parts, sep));
    } else {
        lemma_joined_holds_each(parts.drop_last(), sep, i);
        let before = joined(parts.drop_last(), sep);
        lemma_occurs_in_part(none, before, sep + parts.last(), parts[i]);
        assert(none + before + (sep + parts.last()) =~= joined(parts, sep));
    }
}

/// A quoted name is the name between two quotation marks.
pub proof fn lemma_quoted(s: Seq<char>)
    ensures
        quoted(s).len() == s.len() + 2,
        quoted(s).first() == '"',
        quoted(s).last() == '"',
        quoted(s).drop_first().drop_last() == s,
{
    assert(quoted(s).drop_first().drop_last() =~= s);
}

/// The texts of a list are those of its members, in order.
pub proof fn lemma_views(v: Seq<String>, i: int)
    ensures
        views(v).len() == v.len(),
        0 <= i < v.len() ==> views(v)[i] == v[i]@,
        all_quoted(views(v)).len() == v.len(),
        0 <= i < v.len() ==> all_quoted(views(v))[i] == seq!['"'] + v[i]@ + seq!['"'],
{
}

} // verus!
