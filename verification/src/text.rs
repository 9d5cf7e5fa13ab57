use vstd::prelude::*;
use vstd::arithmetic::div_mod::{lemma_add_mod_noop_right, lemma_fundamental_div_mod_converse, lemma_mul_mod_noop_left};
use vstd::wrapping::isize_specs::signed_crop;

verus! {

/// std's `String::push`: appends one character at the end.
#[verifier::external_body]
pub(crate) fn push_char(s: &mut String, c: char)
    ensures
        final(s)@ == old(s)@.push(c),
{
    s.push(c);
}

/// The pieces of `s` between occurrences of `sep`, as `str::split` yields them:
/// one more piece than there are separators, empty pieces included.
pub open spec fn split_on(s: Seq<char>, sep: char) -> Seq<Seq<char>>
    decreases s.len(),
{
    if s.len() == 0 {
        seq![Seq::empty()]
    } else {
        let init = split_on(s.drop_last(), sep);
        if s.last() == sep {
            init.push(Seq::empty())
        } else {
            init.update(init.len() - 1, init.last().push(s.last()))
        }
    }
}

/// Copies a piece of `s`, given in characters, into a new `String`.
pub(crate) fn piece(s: &str, from: usize, to: usize) -> (r: String)
    requires
        from <= to <= s@.len(),
    ensures
        r@ == s@.subrange(from as int, to as int),
{
    String::from_str(s.substring_char(from, to))
}

/// Splits `s` at every `sep`, keeping empty pieces.
pub fn split_str(s: &str, sep: char) -> (r: Vec<String>)
    ensures
        r.deep_view() == split_on(s@, sep),
{
    let n = s.unicode_len();
    let mut pieces: Vec<String> = Vec::new();
    let mut start: usize = 0;
    let mut i: usize = 0;
    assert(pieces.deep_view() =~= Seq::<Seq<char>>::empty());
    assert(s@.take(0) =~= Seq::<char>::empty());
    assert(s@.subrange(0, 0) =~= Seq::<char>::empty());
    while i < n
        invariant
            n == s@.len(),
            0 <= start <= i <= n,
            pieces.deep_view().push(s@.subrange(start as int, i as int)) == split_on(
                s@.take(i as int),
                sep,
            ),
        decreases n - i,
    {
        let c = s.get_char(i);
        let ghost before = pieces.deep_view();
        assert(s@.take(i + 1).drop_last() =~= s@.take(i as int));
        assert(s@.take(i + 1).last() == c);
        if c == sep {
            let p = piece(s, start, i);
            pieces.push(p);
            assert(pieces.deep_view() =~= before.push(p@));
            assert(s@.subrange(i + 1, i + 1) =~= Seq::<char>::empty());
            start = i + 1;
        } else {
            assert(s@.subrange(start as int, i + 1) =~= s@.subrange(start as int, i as int).push(c));
            assert(before.push(s@.subrange(start as int, i + 1)) =~= before.push(
                s@.subrange(start as int, i as int),
            ).update(before.len() as int, s@.subrange(start as int, i as int).push(c)));
        }
        i = i + 1;
    }
    let p = piece(s, start, n);
    let ghost before = pieces.deep_view();
    pieces.push(p);
    assert(pieces.deep_view() =~= before.push(p@));
    assert(s@.take(n as int) =~= s@);
    pieces
}

/// Unicode `White_Space`, the set that `char::is_whitespace` and `str::trim` use.
pub open spec fn is_space(c: char) -> bool {
    let u = c as u32;
    ||| 0x09 <= u <= 0x0D
    ||| u == 0x20
    ||| u == 0x85
    ||| u == 0xA0
    ||| u == 0x1680
    ||| 0x2000 <= u <= 0x200A
    ||| u == 0x2028
    ||| u == 0x2029
    ||| u == 0x202F
    ||| u == 0x205F
    ||| u == 0x3000
}

pub fn is_space_exec(c: char) -> (r: bool)
    ensures
        r == is_space(c),
{
    let u = c as u32;
    (0x09 <= u && u <= 0x0D) || u == 0x20 || u == 0x85 || u == 0xA0 || u == 0x1680 || (0x2000
        <= u && u <= 0x200A) || u == 0x2028 || u == 0x2029 || u == 0x202F || u == 0x205F || u
        == 0x3000
}

/// `s` without its leading white space.
pub open spec fn trim_start(s: Seq<char>) -> Seq<char>
    decreases s.len(),
{
    if s.len() > 0 && is_space(s[0]) {
        trim_start(s.drop_first())
    } else {
        s
    }
}

/// `s` without its trailing white space.
pub open spec fn trim_end(s: Seq<char>) -> Seq<char>
    decreases s.len(),
{
    if s.len() > 0 && is_space(s.last()) {
        trim_end(s.drop_last())
    } else {
        s
    }
}

/// `s` without white space at either end, as `str::trim` gives it.
pub open spec fn trim(s: Seq<char>) -> Seq<char> {
    trim_end(trim_start(s))
}

proof fn lemma_trim_start_skips(s: Seq<char>, i: int)
    requires
        0 <= i <= s.len(),
        forall|j: int| 0 <= j < i ==> is_space(#[trigger] s[j]),
    ensures
        trim_start(s) == trim_start(s.subrange(i, s.len() as int)),
    decreases i,
{
    if i > 0 {
        lemma_trim_start_skips(s.drop_first(), i - 1);
        assert(s.drop_first().subrange(i - 1, s.drop_first().len() as int) =~= s.subrange(
            i,
            s.len() as int,
        ));
    } else {
        assert(s.subrange(0, s.len() as int) =~= s);
    }
}

proof fn lemma_trim_end_skips(s: Seq<char>, k: int)
    requires
        0 <= k <= s.len(),
        forall|j: int| k <= j < s.len() ==> is_space(#[trigger] s[j]),
    ensures
        trim_end(s) == trim_end(s.subrange(0, k)),
    decreases s.len() - k,
{
    if k < s.len() {
        lemma_trim_end_skips(s.drop_last(), k);
        assert(s.drop_last().subrange(0, k) =~= s.subrange(0, k));
    } else {
        assert(s.subrange(0, s.len() as int) =~= s);
    }
}

/// Index of the first character of `s` that is not white space (the length if none is).
fn first_non_space(s: &str, n: usize) -> (i: usize)
    requires
        n == s@.len(),
    ensures
        i <= n,
        forall|j: int| 0 <= j < i ==> is_space(#[trigger] s@[j]),
        i < n ==> !is_space(s@[i as int]),
{
    let mut i: usize = 0;
    while i < n
        invariant
            n == s@.len(),
            i <= n,
            forall|j: int| 0 <= j < i ==> is_space(#[trigger] s@[j]),
        decreases n - i,
    {
        if !is_space_exec(s.get_char(i)) {
            return i;
        }
        i = i + 1;
    }
    i
}

/// `str::trim_start`: drops leading white space.
pub fn trim_start_str(s: &str) -> (r: String)
    ensures
        r@ == trim_start(s@),
{
    let n = s.unicode_len();
    let i = first_non_space(s, n);
    proof {
        lemma_trim_start_skips(s@, i as int);
    }
    piece(s, i, n)
}

/// `str::trim`: drops leading and trailing white space.
pub fn trim_str(s: &str) -> (r: String)
    ensures
        r@ == trim(s@),
{
    let n = s.unicode_len();
    let i = first_non_space(s, n);
    let mut k: usize = n;
    while k > i
        invariant
            n == s@.len(),
            i <= k <= n,
            forall|j: int| k <= j < n ==> is_space(#[trigger] s@[j]),
        ensures
            k == i || !is_space(s@[k - 1]),
        decreases k,
    {
        if !is_space_exec(s.get_char(k - 1)) {
            break;
        }
        k = k - 1;
    }
    proof {
        lemma_trim_start_skips(s@, i as int);
        let rest = s@.subrange(i as int, n as int);
        if i < n {
            assert(rest[0] == s@[i as int]);
        } else {
            assert(rest.len() == 0);
        }
        assert(trim_start(rest) == rest);
        assert forall|j: int| k - i <= j < rest.len() implies is_space(#[trigger] rest[j]) by {
            assert(rest[j] == s@[i + j]);
        }
        lemma_trim_end_skips(rest, k - i);
        let kept = rest.subrange(0, k - i);
        if k > i {
            assert(kept.last() == s@[k - 1]);
        }
        assert(trim_end(kept) == kept);
        assert(kept =~= s@.subrange(i as int, k as int));
    }
    piece(s, i, k)
}

/// The words joined as a fold of `acc + " " + word` from the empty string:
/// every word is preceded by one space.
pub open spec fn spaced(ws: Seq<Seq<char>>) -> Seq<char>
    decreases ws.len(),
{
    if ws.len() == 0 {
        Seq::empty()
    } else {
        spaced(ws.drop_last()) + seq![' '] + ws.last()
    }
}

/// The words from index `from` on (none when `from` is past the end).
pub open spec fn words_from(ws: Seq<Seq<char>>, from: int) -> Seq<Seq<char>> {
    if from <= ws.len() {
        ws.subrange(from, ws.len() as int)
    } else {
        Seq::empty()
    }
}

/// Joins the words from index `from` on, each preceded by a space.
pub fn join_spaced(words: &Vec<String>, from: usize) -> (r: String)
    ensures
        r@ == spaced(words_from(words.deep_view(), from as int)),
{
    let ghost dv = words.deep_view();
    let mut acc = String::new();
    if from > words.len() {
        return acc;
    }
    let mut i = from;
    assert(dv.subrange(from as int, from as int) =~= Seq::<Seq<char>>::empty());
    while i < words.len()
        invariant
            dv == words.deep_view(),
            from <= i <= words.len(),
            acc@ == spaced(dv.subrange(from as int, i as int)),
        decreases words.len() - i,
    {
        push_char(&mut acc, ' ');
        acc.append(words[i].as_str());
        assert(dv.subrange(from as int, i + 1).drop_last() =~= dv.subrange(from as int, i as int));
        assert(dv[i as int] == words@[i as int]@);
        i = i + 1;
    }
    assert(dv.subrange(from as int, words.len() as int) =~= words_from(dv, from as int));
    acc
}

pub open spec fn is_digit(c: char) -> bool {
    '0' <= c <= '9'
}

/// The value of a run of decimal digits.
pub open spec fn digits_value(d: Seq<char>) -> nat
    decreases d.len(),
{
    if d.len() == 0 {
        0
    } else {
        digits_value(d.drop_last()) * 10 + (d.last() as nat - '0' as nat) as nat
    }
}

/// How many decimal digits `s` starts with.
pub open spec fn leading_digits(s: Seq<char>) -> nat
    decreases s.len(),
{
    if s.len() > 0 && is_digit(s[0]) {
        1 + leading_digits(s.drop_first())
    } else {
        0
    }
}

/// The number that the leading decimal digits of `s` spell (0 when there are none).
pub open spec fn decimal_prefix_value(s: Seq<char>) -> nat {
    digits_value(s.take(leading_digits(s) as int))
}

/// What `to_num` gives for `s`: its leading decimal value, reduced modulo the
/// word size (the digits are accumulated with wrapping arithmetic).
pub open spec fn to_num_spec(s: Seq<char>) -> usize {
    (decimal_prefix_value(s) % (usize::MAX as nat + 1)) as usize
}

/// What `to_num_signed` gives for `s`: with a leading `-`, the negated value of
/// the digits after it; otherwise the value of the leading digits; either way
/// brought into the range of `isize` modulo the word size.
pub open spec fn to_num_signed_spec(s: Seq<char>) -> isize {
    if s.len() > 0 && s[0] == '-' {
        signed_crop(-decimal_prefix_value(s.drop_first()))
    } else {
        signed_crop(decimal_prefix_value(s) as int)
    }
}

proof fn lemma_leading_digits(s: Seq<char>, i: int)
    requires
        0 <= i <= s.len(),
        forall|j: int| 0 <= j < i ==> is_digit(#[trigger] s[j]),
        i == s.len() || !is_digit(s[i]),
    ensures
        leading_digits(s) == i,
    decreases i,
{
    if i > 0 {
        lemma_leading_digits(s.drop_first(), i - 1);
    }
}

/// Parses the leading decimal digits of `s`; parsing stops at the first
/// character that is not a digit.
pub fn to_num(s: &str) -> (r: usize)
    ensures
        r == to_num_spec(s@),
{
    let n = s.unicode_len();
    let mut num: usize = 0;
    let mut i: usize = 0;
    let ghost m: int = usize::MAX as int + 1;
    while i < n
        invariant
            n == s@.len(),
            m == usize::MAX as int + 1,
            i <= n,
            forall|j: int| 0 <= j < i ==> is_digit(#[trigger] s@[j]),
            num as int == digits_value(s@.take(i as int)) as int % m,
        ensures
            i == n || !is_digit(s@[i as int]),
        decreases n - i,
    {
        let c = s.get_char(i);
        if !('0' <= c && c <= '9') {
            break;
        }
        let d = (c as u32 - '0' as u32) as usize;
        proof {
            let v = digits_value(s@.take(i as int)) as int;
            assert(s@.take(i + 1).drop_last() =~= s@.take(i as int));
            assert(digits_value(s@.take(i + 1)) == v * 10 + d);
            lemma_mul_mod_noop_left(v, 10, m);
            lemma_add_mod_noop_right(d as int, v * 10, m);
            assert((num as int * 10) % m + d < 2 * m);
            if (num as int * 10) % m + d >= m {
                lemma_fundamental_div_mod_converse((num as int * 10) % m + d, m, 1, (num as int * 10) % m + d - m);
            } else {
                lemma_fundamental_div_mod_converse((num as int * 10) % m + d, m, 0, (num as int * 10) % m + d);
            }
        }
        num = num.wrapping_mul(10).wrapping_add(d);
        i = i + 1;
    }
    proof {
        lemma_leading_digits(s@, i as int);
    }
    num
}

/// Brings a residue modulo the word size into the range of `isize`.
fn crop_to_signed(w: usize) -> (r: isize)
    ensures
        r == signed_crop(w as int),
{
    proof {
        lemma_fundamental_div_mod_converse(w as int, usize::MAX as int + 1, 0, w as int);
    }
    if w > isize::MAX as usize {
        ((w - isize::MAX as usize - 1) as isize) + isize::MIN
    } else {
        w as isize
    }
}

/// Parses an optionally negative decimal number: a leading `-` negates the
/// value of the digits after it.
pub fn to_num_signed(s: &str) -> (r: isize)
    ensures
        r == to_num_signed_spec(s@),
{
    let n = s.unicode_len();
    let m: Ghost<int> = Ghost(usize::MAX as int + 1);
    if n > 0 && s.get_char(0) == '-' {
        let rest = s.substring_char(1, n);
        assert(rest@ =~= s@.drop_first());
        let u = to_num(rest);
        let ghost v = decimal_prefix_value(rest@) as int;
        let w: usize = if u == 0 { 0 } else { usize::MAX - u + 1 };
        proof {
            let q = v / m@;
            vstd::arithmetic::div_mod::lemma_fundamental_div_mod(v, m@);
            if u == 0 {
                lemma_fundamental_div_mod_converse(-v, m@, -q, 0);
            } else {
                lemma_fundamental_div_mod_converse(-v, m@, -q - 1, w as int);
            }
            lemma_fundamental_div_mod_converse(w as int, m@, 0, w as int);
        }
        let r = crop_to_signed(w);
        r
    } else {
        let u = to_num(s);
        proof {
            let v = decimal_prefix_value(s@) as int;
            lemma_fundamental_div_mod_converse(u as int, m@, 0, u as int);
            vstd::arithmetic::div_mod::lemma_mod_twice(v, m@);
        }
        crop_to_signed(u)
    }
}

/// The upper-case hexadecimal digit for `d` (below 16).
pub open spec fn hex_digit(d: nat) -> char {
    if d < 10 {
        ('0' as nat + d) as char
    } else {
        ('A' as nat + d - 10) as char
    }
}

/// A byte in upper-case hexadecimal without leading zeros, as `{:X}` prints it.
pub open spec fn hex_byte(b: u8) -> Seq<char> {
    if b < 16 {
        seq![hex_digit(b as nat)]
    } else {
        seq![hex_digit((b / 16) as nat), hex_digit((b % 16) as nat)]
    }
}

fn hex_digit_exec(d: u8) -> (c: char)
    requires
        d < 16,
    ensures
        c == hex_digit(d as nat),
{
    if d < 10 {
        (d + 48) as char
    } else {
        (d + 55) as char
    }
}

/// Appends `b` in upper-case hexadecimal, as `{:X}` formats it.
pub fn push_hex_byte(s: &mut String, b: u8)
    ensures
        final(s)@ == old(s)@ + hex_byte(b),
{
    if b >= 16 {
        push_char(s, hex_digit_exec(b / 16));
    }
    push_char(s, hex_digit_exec(b % 16));
    assert(s@ =~= old(s)@ + hex_byte(b));
}

pub proof fn lemma_split_on_nonempty(s: Seq<char>, sep: char)
    ensures
        split_on(s, sep).len() >= 1,
    decreases s.len(),
{
    if s.len() > 0 {
        lemma_split_on_nonempty(s.drop_last(), sep);
    }
}

/// A line without the carriage return of a `\r\n` ending.
pub open spec fn strip_cr(l: Seq<char>) -> Seq<char> {
    if l.len() > 0 && l.last() == '\r' {
        l.drop_last()
    } else {
        l
    }
}

/// The lines of `s`, as `str::lines` yields them: split at `\n`, a `\r` just
/// before a `\n` dropped, and no empty line after a final line ending.
pub open spec fn lines_of(s: Seq<char>) -> Seq<Seq<char>> {
    let p = split_on(s, '\n');
    let ended = Seq::new((p.len() - 1) as nat, |i: int| strip_cr(p[i]));
    if p.last().len() == 0 {
        ended
    } else {
        ended.push(p.last())
    }
}

/// Drops one trailing carriage return.
fn strip_cr_exec(l: &String) -> (r: String)
    ensures
        r@ == strip_cr(l@),
{
    let n = l.as_str().unicode_len();
    if n > 0 && l.as_str().get_char(n - 1) == '\r' {
        piece(l.as_str(), 0, n - 1)
    } else {
        l.clone()
    }
}

/// `str::lines`: the lines of `s`.
pub fn lines(s: &str) -> (r: Vec<String>)
    ensures
        r.deep_view() == lines_of(s@),
{
    let pieces = split_str(s, '\n');
    let ghost p = pieces.deep_view();
    proof {
        lemma_split_on_nonempty(s@, '\n');
    }
    let count = pieces.len();
    let mut out: Vec<String> = Vec::new();
    let mut i: usize = 0;
    while i + 1 < count
        invariant
            count == p.len(),
            count >= 1,
            i < count,
            p == split_on(s@, '\n'),
            p == pieces.deep_view(),
            out.deep_view() == Seq::new(i as nat, |j: int| strip_cr(p[j])),
        decreases count - i,
    {
        let ghost before = out.deep_view();
        let stripped = strip_cr_exec(&pieces[i]);
        assert(pieces.deep_view()[i as int] == pieces@[i as int]@);
        out.push(stripped);
        assert(out.deep_view() =~= before.push(stripped@));
        assert(out.deep_view() =~= Seq::new((i + 1) as nat, |j: int| strip_cr(p[j])));
        i = i + 1;
    }
    let last = pieces[i].clone();
    assert(pieces.deep_view()[i as int] == pieces@[i as int]@);
    assert(last@ == p.last());
    if last.as_str().unicode_len() > 0 {
        let ghost before = out.deep_view();
        out.push(last);
        assert(out.deep_view() =~= before.push(p.last()));
    }
    out
}

} // verus!
