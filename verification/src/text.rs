//! Character and string helpers shared by the text-processing modules.
use vstd::prelude::*;

verus! {

/// The Unicode `White_Space` property, which is what `char::is_whitespace` tests.
pub open spec fn is_white_space(c: char) -> bool {
    let u = c as u32;
    ||| 0x9 <= u <= 0xD
    ||| u == 0x20
    ||| u == 0x85
    ||| u == 0xA0
    ||| u == 0x1680
    ||| 0x2000 <= u <= 0x200A
    ||| u == 0x2028
    ||| u == 0x2029
    ||| u == 0x202F
    ||| u == 0x205F
    ||| u == 0x3000
}

/// Whether a character has the `White_Space` property.
pub fn char_is_whitespace(c: char) -> (b: bool)
    ensures
        b == is_white_space(c),
{
    let u = c as u32;
    (0x9 <= u && u <= 0xD) || u == 0x20 || u == 0x85 || u == 0xA0 || u == 0x1680 || (0x2000 <= u
        && u <= 0x200A) || u == 0x2028 || u == 0x2029 || u == 0x202F || u == 0x205F || u == 0x3000
}

/// The characters of a string slice, in order.
pub fn chars_of(s: &str) -> (v: Vec<char>)
    ensures
        v@ == s@,
{
    broadcast use vstd::string::group_string_axioms;
    let mut v: Vec<char> = Vec::new();
    for c in it: s.chars()
        invariant
            v@ == it.seq().take(it.index() as int),
    {
        v.push(c);
    }
    assert(v@ =~= s@);
    v
}

/// Appends one character to a string (`String::push`).
#[verifier::external_body]
pub fn push_char(s: &mut String, c: char)
    ensures
        final(s)@ == old(s)@.push(c),
{
    s.push(c);
}

/// Appends a string slice to a string.
pub fn push_str(s: &mut String, t: &str)
    ensures
        final(s)@ == old(s)@ + t@,
{
    s.append(t);
}

/// A string made of the characters `v[lo..hi]`.
pub fn string_from_chars(v: &[char], lo: usize, hi: usize) -> (s: String)
    requires
        lo <= hi <= v@.len(),
    ensures
        s@ == v@.subrange(lo as int, hi as int),
{
    let mut s = String::new();
    let mut i = lo;
    while i < hi
        invariant
            lo <= i <= hi <= v@.len(),
            s@ == v@.subrange(lo as int, i as int),
        decreases hi - i,
    {
        push_char(&mut s, v[i]);
        i = i + 1;
        assert(s@ =~= v@.subrange(lo as int, i as int));
    }
    s
}

/// The pieces of `s` between the characters on which `sep` holds, as
/// `str::split` with a character predicate yields them (empty pieces included).
pub open spec fn split_by(s: Seq<char>, sep: spec_fn(char) -> bool) -> Seq<Seq<char>>
    decreases s.len(),
{
    if s.len() == 0 {
        seq![Seq::<char>::empty()]
    } else {
        let init = split_by(s.drop_last(), sep);
        if sep(s.last()) {
            init.push(Seq::<char>::empty())
        } else {
            init.update(init.len() - 1, init.last().push(s.last()))
        }
    }
}

/// `split_by` always yields at least one piece.
pub proof fn lemma_split_by_nonempty(s: Seq<char>, sep: spec_fn(char) -> bool)
    ensures
        split_by(s, sep).len() >= 1,
    decreases s.len(),
{
    if s.len() > 0 {
        lemma_split_by_nonempty(s.drop_last(), sep);
    }
}

/// No piece of `split_by` holds a separator character.
pub proof fn lemma_split_by_pieces_have_no_separator(s: Seq<char>, sep: spec_fn(char) -> bool)
    ensures
        forall|k: int, j: int|
            0 <= k < split_by(s, sep).len() && 0 <= j < split_by(s, sep)[k].len() ==> !sep(
                #[trigger] split_by(s, sep)[k][j],
            ),
    decreases s.len(),
{
    if s.len() > 0 {
        lemma_split_by_nonempty(s.drop_last(), sep);
        lemma_split_by_pieces_have_no_separator(s.drop_last(), sep);
    }
}

/// The kinds of separator that the text-processing functions split on.
pub enum Separator {
    /// Unicode white space, as `str::split_whitespace` uses.
    Whitespace,
    /// The sentence terminators `。`, `.`, `！` and `!`.
    SentenceEnd,
    /// The path separator `/`.
    Slash,
    /// The line feed `\n`.
    Newline,
}

/// Whether `c` is one of the sentence terminators `。`, `.`, `！`, `!`.
pub open spec fn is_sentence_end(c: char) -> bool {
    c == '。' || c == '.' || c == '！' || c == '!'
}

/// Whether `c` separates pieces for the given kind of separator.
pub open spec fn separates(kind: Separator, c: char) -> bool {
    match kind {
        Separator::Whitespace => is_white_space(c),
        Separator::SentenceEnd => is_sentence_end(c),
        Separator::Slash => c == '/',
        Separator::Newline => c == '\n',
    }
}

/// The separator predicate of a kind, as a spec closure.
pub open spec fn separator_fn(kind: Separator) -> spec_fn(char) -> bool {
    |c: char| separates(kind, c)
}

/// Whether `c` separates pieces for the given kind of separator.
pub fn is_separator(kind: &Separator, c: char) -> (b: bool)
    ensures
        b == separates(*kind, c),
{
    match kind {
        Separator::Whitespace => char_is_whitespace(c),
        Separator::SentenceEnd => c == '。' || c == '.' || c == '！' || c == '!',
        Separator::Slash => c == '/',
        Separator::Newline => c == '\n',
    }
}

/// Splits `v` at the characters that separate for `kind`; the pieces are
/// kept in order, empty ones included.
pub fn split_chars(v: &[char], kind: &Separator) -> (pieces: Vec<Vec<char>>)
    ensures
        pieces.deep_view() == split_by(v@, separator_fn(*kind)),
{
    let ghost sep = separator_fn(*kind);
    let mut pieces: Vec<Vec<char>> = Vec::new();
    let mut cur: Vec<char> = Vec::new();
    let mut i: usize = 0;
    while i < v.len()
        invariant
            i <= v@.len(),
            sep == separator_fn(*kind),
            split_by(v@.subrange(0, i as int), sep) == pieces.deep_view().push(cur@),
        decreases v.len() - i,
    {
        let c = v[i];
        let ghost prefix = v@.subrange(0, i as int);
        let ghost next = v@.subrange(0, i + 1);
        let ghost before = pieces.deep_view().push(cur@);
        assert(next.drop_last() =~= prefix);
        assert(next.last() == c);
        assert(next.len() > 0);
        if is_separator(kind, c) {
            let ghost old_pieces = pieces.deep_view();
            let ghost old_cur = cur@;
            assert(cur.deep_view() =~= old_cur);
            pieces.push(cur);
            cur = Vec::new();
            assert(pieces.deep_view() =~= old_pieces.push(old_cur));
            assert(split_by(next, sep) =~= before.push(Seq::<char>::empty()));
            assert(pieces.deep_view().push(cur@) =~= before.push(Seq::<char>::empty()));
        } else {
            let ghost old_cur = cur@;
            cur.push(c);
            assert(split_by(next, sep) =~= before.update(before.len() - 1, old_cur.push(c)));
            assert(pieces.deep_view().push(cur@) =~= before.update(
                before.len() - 1,
                old_cur.push(c),
            ));
        }
        i = i + 1;
    }
    assert(v@.subrange(0, v@.len() as int) =~= v@);
    let ghost old_pieces = pieces.deep_view();
    let ghost old_cur = cur@;
    assert(cur.deep_view() =~= old_cur);
    pieces.push(cur);
    assert(pieces.deep_view() =~= old_pieces.push(old_cur));
    pieces
}

/// `s` without its leading white space.
pub open spec fn trim_start(s: Seq<char>) -> Seq<char>
    decreases s.len(),
{
    if s.len() > 0 && is_white_space(s[0]) {
        trim_start(s.drop_first())
    } else {
        s
    }
}

/// `s` without its trailing white space.
pub open spec fn trim_end(s: Seq<char>) -> Seq<char>
    decreases s.len(),
{
    if s.len() > 0 && is_white_space(s.last()) {
        trim_end(s.drop_last())
    } else {
        s
    }
}

/// `s` without leading and trailing white space, as `str::trim` gives it.
pub open spec fn trim(s: Seq<char>) -> Seq<char> {
    trim_end(trim_start(s))
}

/// `trim_start` keeps a suffix of `s`.
pub proof fn lemma_trim_start_suffix(s: Seq<char>)
    ensures
        trim_start(s).len() <= s.len(),
        trim_start(s) == s.subrange(s.len() - trim_start(s).len(), s.len() as int),
    decreases s.len(),
{
    if s.len() > 0 && is_white_space(s[0]) {
        lemma_trim_start_suffix(s.drop_first());
        assert(trim_start(s) =~= s.subrange(s.len() - trim_start(s).len(), s.len() as int));
    } else {
        assert(s =~= s.subrange(0, s.len() as int));
    }
}

/// `trim_end` keeps a prefix of `s`.
pub proof fn lemma_trim_end_prefix(s: Seq<char>)
    ensures
        trim_end(s).len() <= s.len(),
        trim_end(s) == s.subrange(0, trim_end(s).len() as int),
    decreases s.len(),
{
    if s.len() > 0 && is_white_space(s.last()) {
        lemma_trim_end_prefix(s.drop_last());
        assert(trim_end(s) =~= s.subrange(0, trim_end(s).len() as int));
    } else {
        assert(s =~= s.subrange(0, s.len() as int));
    }
}

/// Every character that `trim` keeps is a character of `s`.
pub proof fn lemma_trim_chars_from(s: Seq<char>)
    ensures
        forall|i: int| 0 <= i < trim(s).len() ==> exists|j: int| 0 <= j < s.len() && s[j] == #[trigger] trim(s)[i],
{
    let t = trim_start(s);
    lemma_trim_start_suffix(s);
    lemma_trim_end_prefix(t);
    let off = s.len() - t.len();
    assert forall|i: int| 0 <= i < trim(s).len() implies exists|j: int| 0 <= j < s.len() && s[j] == #[trigger] trim(s)[i] by {
        assert(trim(s)[i] == t[i]);
        assert(t[i] == s[off + i]);
    }
}

/// Splitting after a separator character and then a piece without
/// separators gives the pieces before, then that piece.
pub proof fn lemma_split_by_append_piece(s: Seq<char>, c: char, w: Seq<char>, sep: spec_fn(char) -> bool)
    requires
        sep(c),
        forall|i: int| 0 <= i < w.len() ==> !sep(#[trigger] w[i]),
    ensures
        split_by(s.push(c) + w, sep) == split_by(s, sep).push(w),
    decreases w.len(),
{
    if w.len() == 0 {
        assert(s.push(c) + w =~= s.push(c));
        assert((s.push(c)).drop_last() =~= s);
        assert(w =~= Seq::<char>::empty());
    } else {
        let w0 = w.drop_last();
        lemma_split_by_append_piece(s, c, w0, sep);
        let full = s.push(c) + w;
        assert(full.drop_last() =~= s.push(c) + w0);
        assert(full.last() == w[w.len() - 1]);
        assert(!sep(w[w.len() - 1]));
        lemma_split_by_nonempty(s, sep);
        assert(w0.push(w.last()) =~= w);
        assert(split_by(s, sep).push(w0).update(split_by(s, sep).len() as int, w0.push(w.last()))
            =~= split_by(s, sep).push(w));
    }
}

/// The bounds `lo..hi` of `v` that `trim` keeps.
pub fn trim_bounds(v: &[char]) -> (r: (usize, usize))
    ensures
        r.0 <= r.1 <= v@.len(),
        v@.subrange(r.0 as int, r.1 as int) == trim(v@),
{
    let n = v.len();
    let mut lo: usize = 0;
    assert(v@.subrange(0, n as int) =~= v@);
    while lo < n && char_is_whitespace(v[lo])
        invariant
            lo <= n == v@.len(),
            trim_start(v@) == trim_start(v@.subrange(lo as int, n as int)),
        decreases n - lo,
    {
        assert(v@.subrange(lo as int, n as int).drop_first() =~= v@.subrange(lo + 1, n as int));
        lo = lo + 1;
    }
    assert(trim_start(v@) == v@.subrange(lo as int, n as int));
    let mut hi: usize = n;
    while hi > lo && char_is_whitespace(v[hi - 1])
        invariant
            lo <= hi <= n == v@.len(),
            trim(v@) == trim_end(v@.subrange(lo as int, hi as int)),
        decreases hi - lo,
    {
        assert(v@.subrange(lo as int, hi as int).drop_last() =~= v@.subrange(lo as int, hi - 1));
        hi = hi - 1;
    }
    (lo, hi)
}

/// Whether two string slices hold the same characters.
pub fn str_eq(a: &str, b: &str) -> (r: bool)
    ensures
        r == (a@ == b@),
{
    let x = chars_of(a);
    let y = chars_of(b);
    if x.len() != y.len() {
        return false;
    }
    let mut i: usize = 0;
    while i < x.len()
        invariant
            x@ == a@,
            y@ == b@,
            x@.len() == y@.len(),
            i <= x@.len(),
            forall|k: int| 0 <= k < i ==> x@[k] == y@[k],
        decreases x.len() - i,
    {
        if x[i] != y[i] {
            return false;
        }
        i = i + 1;
    }
    assert(x@ =~= y@);
    true
}

/// The pieces joined in order with `sep` between neighbours, as
/// `[T]::join` does.
pub open spec fn joined(parts: Seq<Seq<char>>, sep: Seq<char>) -> Seq<char>
    decreases parts.len(),
{
    if parts.len() == 0 {
        Seq::<char>::empty()
    } else if parts.len() == 1 {
        parts[0]
    } else {
        joined(parts.drop_last(), sep) + sep + parts.last()
    }
}

/// The characters of each string, in order.
pub open spec fn views(parts: Seq<String>) -> Seq<Seq<char>> {
    parts.map_values(|p: String| p@)
}

/// The strings joined in order with `sep` between neighbours.
pub fn join_strings(parts: &[String], sep: &str) -> (r: String)
    ensures
        r@ == joined(views(parts@), sep@),
{
    let mut r = String::new();
    let mut i: usize = 0;
    while i < parts.len()
        invariant
            i <= parts@.len(),
            r@ == joined(views(parts@.subrange(0, i as int)), sep@),
        decreases parts.len() - i,
    {
        let ghost before = views(parts@.subrange(0, i as int));
        let ghost after = views(parts@.subrange(0, i + 1));
        assert(after.drop_last() =~= before);
        assert(after.last() == parts@[i as int]@);
        if i > 0 {
            push_str(&mut r, sep);
        } else {
            assert(after =~= seq![parts@[0]@]);
        }
        push_str(&mut r, parts[i].as_str());
        i = i + 1;
    }
    assert(parts@.subrange(0, parts@.len() as int) =~= parts@);
    r
}

/// Whether `w` occurs in `s` starting at index `i`.
pub open spec fn occurs_at(s: Seq<char>, w: Seq<char>, i: int) -> bool {
    0 <= i && i + w.len() <= s.len() && s.subrange(i, i + w.len()) == w
}

/// Whether `w` occurs in `s` (`str::contains` with a string pattern).
pub open spec fn contains(s: Seq<char>, w: Seq<char>) -> bool {
    exists|i: int| occurs_at(s, w, i)
}

fn matches_at(s: &[char], w: &[char], i: usize) -> (b: bool)
    requires
        i + w@.len() <= s@.len(),
    ensures
        b == occurs_at(s@, w@, i as int),
{
    let mut j: usize = 0;
    while j < w.len()
        invariant
            i + w@.len() <= s@.len(),
            j <= w@.len(),
            forall|m: int| 0 <= m < j ==> s@[i + m] == w@[m],
        decreases w.len() - j,
    {
        assert(i + j < s.len());
        if s[i + j] != w[j] {
            assert(s@.subrange(i as int, i + w@.len())[j as int] != w@[j as int]);
            return false;
        }
        j = j + 1;
    }
    assert(s@.subrange(i as int, i + w@.len()) =~= w@);
    true
}

/// Whether `w` occurs in `s`.
pub fn chars_contain(s: &[char], w: &[char]) -> (b: bool)
    ensures
        b == contains(s@, w@),
{
    if w.len() > s.len() {
        assert(forall|i: int| !occurs_at(s@, w@, i));
        return false;
    }
    let last = s.len() - w.len();
    let mut i: usize = 0;
    loop
        invariant
            i <= last,
            last + w@.len() == s@.len(),
            forall|k: int| 0 <= k < i ==> !occurs_at(s@, w@, k),
        decreases last - i,
    {
        if matches_at(s, w, i) {
            return true;
        }
        if i == last {
            assert forall|k: int| !occurs_at(s@, w@, k) by {
                if 0 <= k <= i {
                }
            }
            return false;
        }
        i = i + 1;
    }
}

/// The decimal digit character for `d < 10`.
pub open spec fn digit_char(d: nat) -> char {
    if d == 0 { '0' } else if d == 1 { '1' } else if d == 2 { '2' } else if d == 3 { '3' }
    else if d == 4 { '4' } else if d == 5 { '5' } else if d == 6 { '6' } else if d == 7 { '7' }
    else if d == 8 { '8' } else { '9' }
}

/// The decimal digits of `n`, without leading zeros (`"0"` for zero).
pub open spec fn nat_digits(n: nat) -> Seq<char>
    decreases n,
{
    if n < 10 {
        seq![digit_char(n)]
    } else {
        nat_digits(n / 10).push(digit_char(n % 10))
    }
}

/// The decimal text of an integer, as `{}` formats it.
pub open spec fn decimal(n: int) -> Seq<char> {
    if n < 0 {
        seq!['-'] + nat_digits((-n) as nat)
    } else {
        nat_digits(n as nat)
    }
}

fn digit(d: u64) -> (c: char)
    requires
        d < 10,
    ensures
        c == digit_char(d as nat),
{
    if d == 0 { '0' } else if d == 1 { '1' } else if d == 2 { '2' } else if d == 3 { '3' }
    else if d == 4 { '4' } else if d == 5 { '5' } else if d == 6 { '6' } else if d == 7 { '7' }
    else if d == 8 { '8' } else { '9' }
}

fn push_digits(s: &mut String, n: u64)
    ensures
        final(s)@ == old(s)@ + nat_digits(n as nat),
    decreases n,
{
    if n < 10 {
        push_char(s, digit(n));
        assert(final(s)@ =~= old(s)@ + nat_digits(n as nat));
    } else {
        push_digits(s, n / 10);
        push_char(s, digit(n % 10));
        assert(final(s)@ =~= old(s)@ + nat_digits(n as nat));
    }
}

/// Appends the decimal text of a nonnegative 128-bit `n`.
pub fn push_unsigned_wide(s: &mut String, n: u128)
    ensures
        final(s)@ == old(s)@ + decimal(n as int),
    decreases n,
{
    if n < 10 {
        push_char(s, digit(n as u64));
        assert(final(s)@ =~= old(s)@ + nat_digits(n as nat));
    } else {
        push_unsigned_wide(s, n / 10);
        push_char(s, digit((n % 10) as u64));
        assert(final(s)@ =~= old(s)@ + nat_digits(n as nat));
    }
}

/// Appends the decimal text of a nonnegative `n`.
pub fn push_unsigned(s: &mut String, n: u64)
    ensures
        final(s)@ == old(s)@ + decimal(n as int),
{
    push_digits(s, n);
}

/// Appends the decimal text of `n`.
pub fn push_decimal(s: &mut String, n: i64)
    ensures
        final(s)@ == old(s)@ + decimal(n as int),
{
    if n < 0 {
        push_char(s, '-');
        let m: u64 = (0i128 - n as i128) as u64;
        push_digits(s, m);
        assert(final(s)@ =~= old(s)@ + decimal(n as int));
    } else {
        push_digits(s, n as u64);
    }
}

/// The lowercase hexadecimal digit character for `d < 16`.
pub open spec fn hex_char(d: nat) -> char {
    if d < 10 { digit_char(d) } else if d == 10 { 'a' } else if d == 11 { 'b' } else if d == 12 { 'c' }
    else if d == 13 { 'd' } else if d == 14 { 'e' } else { 'f' }
}

/// The last `k` lowercase hexadecimal digits of `n`, zero-padded.
pub open spec fn hex_digits(n: nat, k: nat) -> Seq<char>
    decreases k,
{
    if k == 0 {
        Seq::<char>::empty()
    } else {
        hex_digits(n / 16, (k - 1) as nat).push(hex_char(n % 16))
    }
}

fn hex_digit(d: u64) -> (c: char)
    requires
        d < 16,
    ensures
        c == hex_char(d as nat),
{
    if d < 10 { digit(d) } else if d == 10 { 'a' } else if d == 11 { 'b' } else if d == 12 { 'c' }
    else if d == 13 { 'd' } else if d == 14 { 'e' } else { 'f' }
}

fn push_hex_digits(s: &mut String, n: u64, k: u64)
    ensures
        final(s)@ == old(s)@ + hex_digits(n as nat, k as nat),
    decreases k,
{
    if k == 0 {
        assert(final(s)@ =~= old(s)@ + hex_digits(n as nat, k as nat));
    } else {
        push_hex_digits(s, n / 16, k - 1);
        push_char(s, hex_digit(n % 16));
        assert(final(s)@ =~= old(s)@ + hex_digits(n as nat, k as nat));
    }
}

/// `hex_digits(n, k)` has `k` characters.
pub proof fn lemma_hex_digits_len(n: nat, k: nat)
    ensures
        hex_digits(n, k).len() == k,
    decreases k,
{
    if k > 0 {
        lemma_hex_digits_len(n / 16, (k - 1) as nat);
    }
}

/// `h` as sixteen lowercase hexadecimal digits, as `{:016x}` formats a `u64`.
pub fn hex16(h: u64) -> (s: String)
    ensures
        s@ == hex_digits(h as nat, 16),
{
    let mut s = String::new();
    push_hex_digits(&mut s, h, 16);
    assert(s@ =~= hex_digits(h as nat, 16));
    s
}

/// The number of bytes of the UTF-8 encoding of `c`.
pub open spec fn utf8_width(c: char) -> nat {
    let u = c as u32;
    if u < 0x80 {
        1
    } else if u < 0x800 {
        2
    } else if u < 0x10000 {
        3
    } else {
        4
    }
}

/// The number of bytes of the UTF-8 encoding of `s`.
pub open spec fn utf8_len(s: Seq<char>) -> nat
    decreases s.len(),
{
    if s.len() == 0 {
        0
    } else {
        utf8_len(s.drop_last()) + utf8_width(s.last())
    }
}

/// The number of bytes of the UTF-8 encoding of `c`.
pub fn utf8_width_of(c: char) -> (w: usize)
    ensures
        w == utf8_width(c),
{
    let u = c as u32;
    if u < 0x80 {
        1
    } else if u < 0x800 {
        2
    } else if u < 0x10000 {
        3
    } else {
        4
    }
}

/// Encoding a sequence with one more character appends that character's encoding.
pub proof fn lemma_encode_utf8_push(s: Seq<char>, c: char)
    ensures
        vstd::utf8::encode_utf8(s.push(c)) == vstd::utf8::encode_utf8(s)
            + vstd::utf8::encode_scalar(c as u32),
    decreases s.len(),
{
    if s.len() == 0 {
        assert(s.push(c).drop_first() =~= Seq::<char>::empty());
        assert(s.push(c)[0] == c);
        assert(s =~= Seq::<char>::empty());
        assert(vstd::utf8::encode_utf8(Seq::<char>::empty()) =~= Seq::<u8>::empty());
        assert(vstd::utf8::encode_utf8(s.push(c)) =~= vstd::utf8::encode_utf8(s)
            + vstd::utf8::encode_scalar(c as u32));
    } else {
        lemma_encode_utf8_push(s.drop_first(), c);
        assert(s.push(c).drop_first() =~= s.drop_first().push(c));
        assert(s.push(c)[0] == s[0]);
        let a = vstd::utf8::encode_scalar(s[0] as u32);
        let b = vstd::utf8::encode_utf8(s.drop_first());
        let d = vstd::utf8::encode_scalar(c as u32);
        assert(vstd::utf8::encode_utf8(s.push(c)) == a + (b + d));
        assert(vstd::utf8::encode_utf8(s) == a + b);
        assert(a + (b + d) =~= (a + b) + d);
    }
}

/// The encoding of a character has `utf8_width` bytes.
pub proof fn lemma_encode_scalar_width(c: char)
    ensures
        vstd::utf8::encode_scalar(c as u32).len() == utf8_width(c),
{
    broadcast use vstd::utf8::char_is_scalar;
    assert(vstd::utf8::is_scalar(c as u32));
}

/// `utf8_len` is the length of the UTF-8 encoding.
pub proof fn lemma_utf8_len_encode(s: Seq<char>)
    ensures
        utf8_len(s) == vstd::utf8::encode_utf8(s).len(),
    decreases s.len(),
{
    if s.len() > 0 {
        lemma_utf8_len_encode(s.drop_last());
        lemma_encode_utf8_push(s.drop_last(), s.last());
        lemma_encode_scalar_width(s.last());
        assert(s.drop_last().push(s.last()) =~= s);
    }
}

/// A prefix of `s` encodes to no more bytes than `s`.
pub proof fn lemma_utf8_len_prefix_monotone(s: Seq<char>, i: int)
    requires
        0 <= i <= s.len(),
    ensures
        utf8_len(s.subrange(0, i)) <= utf8_len(s),
    decreases s.len() - i,
{
    if i < s.len() {
        lemma_utf8_len_prefix_monotone(s, i + 1);
        assert(s.subrange(0, i + 1).drop_last() =~= s.subrange(0, i));
    } else {
        assert(s.subrange(0, i) =~= s);
    }
}

/// A line without one trailing carriage return.
pub open spec fn without_cr(line: Seq<char>) -> Seq<char> {
    if line.len() > 0 && line.last() == '\r' {
        line.drop_last()
    } else {
        line
    }
}

/// The lines of a text, as `str::lines` gives them: split at `\n`, without
/// the empty piece after a final `\n`, each without a trailing `\r`.
pub open spec fn text_lines(s: Seq<char>) -> Seq<Seq<char>> {
    let pieces = split_by(s, separator_fn(Separator::Newline));
    let kept = if s.len() == 0 || s.last() == '\n' { pieces.drop_last() } else { pieces };
    kept.map_values(|l: Seq<char>| without_cr(l))
}

fn line_without_cr(line: &Vec<char>) -> (s: String)
    ensures
        s@ == without_cr(line@),
{
    let end = if line.len() > 0 && line[line.len() - 1] == '\r' { line.len() - 1 } else { line.len() };
    let s = string_from_chars(line.as_slice(), 0, end);
    assert(line@.subrange(0, line@.len() as int) =~= line@);
    assert(line@.len() > 0 ==> line@.subrange(0, line@.len() - 1) =~= line@.drop_last());
    s
}

/// The lines of a text, as `str::lines` gives them.
pub fn lines_of(text: &str) -> (lines: Vec<String>)
    ensures
        views(lines@) == text_lines(text@),
{
    let v = chars_of(text);
    let pieces = split_chars(&v, &Separator::Newline);
    proof {
        lemma_split_by_nonempty(v@, separator_fn(Separator::Newline));
    }
    let ghost ps = pieces.deep_view();
    let kept_len = if v.len() == 0 || v[v.len() - 1] == '\n' { pieces.len() - 1 } else { pieces.len() };
    let ghost kept = if v@.len() == 0 || v@.last() == '\n' { ps.drop_last() } else { ps };
    let mut lines: Vec<String> = Vec::new();
    let mut k: usize = 0;
    while k < kept_len
        invariant
            k <= kept_len == kept.len(),
            kept_len <= pieces@.len(),
            ps == pieces.deep_view(),
            kept == (if v@.len() == 0 || v@.last() == '\n' { ps.drop_last() } else { ps }),
            views(lines@) == kept.subrange(0, k as int).map_values(|l: Seq<char>| without_cr(l)),
        decreases kept_len - k,
    {
        assert(kept[k as int] == ps[k as int]);
        assert(pieces@[k as int]@ == ps[k as int]);
        let line = line_without_cr(&pieces[k]);
        let ghost before = lines@;
        lines.push(line);
        assert(views(lines@) =~= views(before).push(line@));
        assert(kept.subrange(0, k + 1).map_values(|l: Seq<char>| without_cr(l)) =~= kept.subrange(0, k as int).map_values(|l: Seq<char>| without_cr(l)).push(without_cr(kept[k as int])));
        k = k + 1;
    }
    assert(kept.subrange(0, kept_len as int) =~= kept);
    lines
}

} // verus!
