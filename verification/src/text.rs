//! Wire text as bytes: literals, decimal numbers, trimming and splitting.
use vstd::prelude::*;
use vstd::slice::slice_subrange;

verus! {

/// The bytes of a piece of text.
pub open spec fn text(s: &str) -> Seq<u8> {
    vstd::utf8::encode_utf8(s@)
}

/// Appends `bytes` to `out`.
pub fn push_bytes(out: &mut Vec<u8>, bytes: &[u8])
    ensures
        final(out)@ == old(out)@ + bytes@,
{
    let mut i: usize = 0;
    while i < bytes.len()
        invariant
            i <= bytes.len(),
            out@ == old(out)@ + bytes@.subrange(0, i as int),
        decreases bytes.len() - i,
    {
        out.push(bytes[i]);
        i += 1;
        assert(bytes@.subrange(0, i as int) =~= bytes@.subrange(0, i - 1).push(bytes@[i - 1]));
        assert(out@ =~= old(out)@ + bytes@.subrange(0, i as int));
    }
    assert(bytes@.subrange(0, i as int) =~= bytes@);
}

/// Appends the bytes of `s` to `out`.
pub fn push_text(out: &mut Vec<u8>, s: &str)
    ensures
        final(out)@ == old(out)@ + text(s),
{
    push_bytes(out, s.as_bytes());
}

/// The bytes of `s` as a fresh vector.
pub fn text_bytes(s: &str) -> (bytes: Vec<u8>)
    ensures
        bytes@ == text(s),
{
    let mut bytes: Vec<u8> = Vec::new();
    push_text(&mut bytes, s);
    assert(bytes@ =~= text(s));
    bytes
}

/// A copy of `bytes`.
pub fn copy_bytes(bytes: &[u8]) -> (copy: Vec<u8>)
    ensures
        copy@ == bytes@,
{
    let mut copy: Vec<u8> = Vec::new();
    push_bytes(&mut copy, bytes);
    assert(copy@ =~= bytes@);
    copy
}

/// Whether two byte strings are equal.
pub fn same_bytes(a: &[u8], b: &[u8]) -> (same: bool)
    ensures
        same == (a@ == b@),
{
    if a.len() != b.len() {
        return false;
    }
    let mut i: usize = 0;
    while i < a.len()
        invariant
            i <= a.len(),
            a.len() == b.len(),
            a@.subrange(0, i as int) == b@.subrange(0, i as int),
        decreases a.len() - i,
    {
        if a[i] != b[i] {
            return false;
        }
        i += 1;
        assert(a@.subrange(0, i as int) =~= a@.subrange(0, i - 1).push(a@[i - 1]));
        assert(b@.subrange(0, i as int) =~= b@.subrange(0, i - 1).push(b@[i - 1]));
    }
    assert(a@ =~= a@.subrange(0, i as int));
    assert(b@ =~= b@.subrange(0, i as int));
    true
}

/// Whether `bytes` spells exactly `s`.
pub fn is_text(bytes: &[u8], s: &str) -> (same: bool)
    ensures
        same == (bytes@ == text(s)),
{
    same_bytes(bytes, s.as_bytes())
}

/// The decimal digits of `n`, most significant first, without leading zeros.
pub open spec fn decimal(n: nat) -> Seq<u8>
    decreases n,
{
    if n < 10 {
        seq![(48 + n) as u8]
    } else {
        decimal(n / 10).push((48 + n % 10) as u8)
    }
}

/// Appends `n` in decimal to `out`.
pub fn push_decimal(out: &mut Vec<u8>, n: u64)
    ensures
        final(out)@ == old(out)@ + decimal(n as nat),
    decreases n,
{
    if n >= 10 {
        push_decimal(out, n / 10);
    }
    let digit: u8 = 48 + (n % 10) as u8;
    out.push(digit);
    assert(out@ =~= old(out)@ + decimal(n as nat));
}

/// Whether `b` is an ASCII digit.
pub open spec fn is_digit(b: u8) -> bool {
    48 <= b <= 57
}

/// Whether every byte of `s` is an ASCII digit.
pub open spec fn all_digits(s: Seq<u8>) -> bool {
    forall|i: int| 0 <= i < s.len() ==> is_digit(#[trigger] s[i])
}

/// The number that a run of digits spells.
pub open spec fn digits_value(s: Seq<u8>) -> nat
    decreases s.len(),
{
    if s.len() == 0 {
        0
    } else {
        digits_value(s.drop_last()) * 10 + (s.last() - 48) as nat
    }
}

/// `s` without one leading `+`, if it has one.
pub open spec fn unsigned_digits(s: Seq<u8>) -> Seq<u8> {
    if s.len() > 0 && s[0] == 43 {
        s.subrange(1, s.len() as int)
    } else {
        s
    }
}

/// The unsigned 64-bit number that `s` spells: an optional `+`, then one or more
/// digits whose value fits. Anything else spells no number.
pub open spec fn spec_parse_u64(s: Seq<u8>) -> Option<u64> {
    let digits = unsigned_digits(s);
    if digits.len() > 0 && all_digits(digits) && digits_value(digits) <= u64::MAX {
        Some(digits_value(digits) as u64)
    } else {
        None
    }
}

/// A run of digits is worth at least as much as each of its prefixes.
pub proof fn lemma_digits_value_prefix(s: Seq<u8>, k: int)
    requires
        0 <= k <= s.len(),
    ensures
        digits_value(s.subrange(0, k)) <= digits_value(s),
    decreases s.len() - k,
{
    if k < s.len() {
        lemma_digits_value_prefix(s.drop_last(), k);
        assert(s.drop_last().subrange(0, k) =~= s.subrange(0, k));
    } else {
        assert(s.subrange(0, k) =~= s);
    }
}

/// The decimal digits of a number are digits, and they spell the number.
pub proof fn lemma_decimal_digits(n: nat)
    ensures
        decimal(n).len() >= 1,
        all_digits(decimal(n)),
        digits_value(decimal(n)) == n,
    decreases n,
{
    if n < 10 {
        assert(decimal(n).drop_last() =~= Seq::<u8>::empty());
        assert(digits_value(decimal(n).drop_last()) == 0);
    } else {
        lemma_decimal_digits(n / 10);
        let rest = decimal(n / 10);
        let all = decimal(n);
        assert(all.drop_last() =~= rest);
        assert forall|i: int| 0 <= i < all.len() implies is_digit(#[trigger] all[i]) by {
            if i < rest.len() {
                assert(all[i] == rest[i]);
            }
        }
    }
}

/// A number that is written in decimal and read again is the same number.
pub proof fn lemma_decimal_round_trip(n: u64)
    ensures
        spec_parse_u64(decimal(n as nat)) == Some(n),
{
    lemma_decimal_digits(n as nat);
    assert(is_digit(decimal(n as nat)[0]));
}

/// Reads an unsigned 64-bit number in decimal.
pub fn parse_u64(s: &[u8]) -> (number: Option<u64>)
    ensures
        number == spec_parse_u64(s@),
{
    let start: usize = if s.len() > 0 && s[0] == 43 {
        1
    } else {
        0
    };
    let ghost digits = unsigned_digits(s@);
    assert(digits =~= s@.subrange(start as int, s@.len() as int));
    if start == s.len() {
        return None;
    }
    let mut value: u64 = 0;
    let mut i: usize = start;
    while i < s.len()
        invariant
            start <= i <= s.len(),
            digits == s@.subrange(start as int, s@.len() as int),
            digits == unsigned_digits(s@),
            all_digits(digits.subrange(0, i - start)),
            value == digits_value(digits.subrange(0, i - start)),
        decreases s.len() - i,
    {
        let byte = s[i];
        let ghost before = digits.subrange(0, i - start);
        let ghost after = digits.subrange(0, i - start + 1);
        assert(after.drop_last() =~= before);
        assert(after.last() == byte);
        assert(digits[i - start] == byte);
        if byte < 48 || byte > 57 {
            assert(!is_digit(digits[i - start]));
            return None;
        }
        let digit: u64 = (byte - 48) as u64;
        if value > (u64::MAX - digit) / 10 {
            proof {
                lemma_digits_value_prefix(digits, i - start + 1);
            }
            return None;
        }
        value = value * 10 + digit;
        i += 1;
        assert forall|j: int| 0 <= j < after.len() implies is_digit(#[trigger] after[j]) by {
            if j < before.len() {
                assert(after[j] == before[j]);
            }
        }
    }
    assert(digits.subrange(0, i - start) =~= digits);
    Some(value)
}

/// Whether `b` is ASCII white space: a space, a tab, a line feed, a vertical tab,
/// a form feed or a carriage return.
pub open spec fn is_space(b: u8) -> bool {
    b == 32 || (9 <= b <= 13)
}

/// Whether `b` is ASCII white space.
pub fn is_space_byte(b: u8) -> (space: bool)
    ensures
        space == is_space(b),
{
    b == 32 || (9 <= b && b <= 13)
}

/// The length of `s` once trailing white space is cut.
pub open spec fn trim_end_len(s: Seq<u8>) -> nat
    decreases s.len(),
{
    if s.len() > 0 && is_space(s.last()) {
        trim_end_len(s.drop_last())
    } else {
        s.len()
    }
}

/// `s` without trailing white space.
pub open spec fn spec_trim_end(s: Seq<u8>) -> Seq<u8> {
    s.subrange(0, trim_end_len(s) as int)
}

/// The number of leading white-space bytes of `s`.
pub open spec fn leading_spaces(s: Seq<u8>) -> nat
    decreases s.len(),
{
    if s.len() > 0 && is_space(s[0]) {
        1 + leading_spaces(s.drop_first())
    } else {
        0
    }
}

/// `s` without leading white space.
pub open spec fn spec_trim_start(s: Seq<u8>) -> Seq<u8> {
    s.subrange(leading_spaces(s) as int, s.len() as int)
}

/// `s` without leading and trailing white space.
pub open spec fn spec_trim(s: Seq<u8>) -> Seq<u8> {
    spec_trim_end(spec_trim_start(s))
}

/// Cuts trailing white space.
pub fn trim_end(s: &[u8]) -> (trimmed: &[u8])
    ensures
        trimmed@ == spec_trim_end(s@),
{
    let mut n: usize = s.len();
    assert(s@.subrange(0, s.len() as int) =~= s@);
    while n > 0 && is_space_byte(s[n - 1])
        invariant
            n <= s.len(),
            trim_end_len(s@) == trim_end_len(s@.subrange(0, n as int)),
        decreases n,
    {
        assert(s@.subrange(0, n as int).drop_last() =~= s@.subrange(0, n - 1));
        n -= 1;
    }
    slice_subrange(s, 0, n)
}

/// Cuts leading white space.
pub fn trim_start(s: &[u8]) -> (trimmed: &[u8])
    ensures
        trimmed@ == spec_trim_start(s@),
{
    let mut i: usize = 0;
    assert(s@.subrange(0, s@.len() as int) =~= s@);
    while i < s.len() && is_space_byte(s[i])
        invariant
            i <= s.len(),
            leading_spaces(s@) == i + leading_spaces(s@.subrange(i as int, s@.len() as int)),
        decreases s.len() - i,
    {
        assert(s@.subrange(i as int, s@.len() as int).drop_first() =~= s@.subrange(
            i + 1,
            s@.len() as int,
        ));
        i += 1;
    }
    slice_subrange(s, i, s.len())
}

/// Cuts leading and trailing white space.
pub fn trim(s: &[u8]) -> (trimmed: &[u8])
    ensures
        trimmed@ == spec_trim(s@),
{
    trim_end(trim_start(s))
}

/// The index of the first byte `b` in `s`, or the length of `s` if there is none.
pub open spec fn first_index_of(s: Seq<u8>, b: u8) -> nat
    decreases s.len(),
{
    if s.len() == 0 || s[0] == b {
        0
    } else {
        1 + first_index_of(s.drop_first(), b)
    }
}

/// `first_index_of` finds the least index that holds `b`.
pub proof fn lemma_first_index_of(s: Seq<u8>, b: u8)
    ensures
        first_index_of(s, b) <= s.len(),
        first_index_of(s, b) < s.len() ==> s[first_index_of(s, b) as int] == b,
        forall|i: int| 0 <= i < first_index_of(s, b) ==> #[trigger] s[i] != b,
    decreases s.len(),
{
    if !(s.len() == 0 || s[0] == b) {
        lemma_first_index_of(s.drop_first(), b);
        assert forall|i: int| 0 <= i < first_index_of(s, b) implies #[trigger] s[i] != b by {
            if i > 0 {
                assert(s[i] == s.drop_first()[i - 1]);
            }
        }
    }
}

/// A line cut at its first space: the verb before it and the arguments after it.
/// A line without a space is all verb.
pub open spec fn spec_split_command(line: Seq<u8>) -> (Seq<u8>, Seq<u8>) {
    let at = first_index_of(line, 32) as int;
    if at < line.len() {
        (line.subrange(0, at), line.subrange(at + 1, line.len() as int))
    } else {
        (line, Seq::empty())
    }
}

/// Cuts a line at its first space into verb and arguments.
pub fn split_command(full_cmd: &[u8]) -> (parts: (&[u8], &[u8]))
    ensures
        (parts.0@, parts.1@) == spec_split_command(full_cmd@),
        !parts.0@.contains(32u8),
        full_cmd@ == parts.0@ || full_cmd@ == parts.0@ + seq![32u8] + parts.1@,
{
    let mut i: usize = 0;
    assert(full_cmd@.subrange(0, full_cmd@.len() as int) =~= full_cmd@);
    while i < full_cmd.len() && full_cmd[i] != 32
        invariant
            i <= full_cmd.len(),
            first_index_of(full_cmd@, 32) == i + first_index_of(
                full_cmd@.subrange(i as int, full_cmd@.len() as int),
                32,
            ),
        decreases full_cmd.len() - i,
    {
        assert(full_cmd@.subrange(i as int, full_cmd@.len() as int).drop_first()
            =~= full_cmd@.subrange(i + 1, full_cmd@.len() as int));
        i += 1;
    }
    proof {
        lemma_first_index_of(full_cmd@, 32);
    }
    if i < full_cmd.len() {
        let name = slice_subrange(full_cmd, 0, i);
        let args = slice_subrange(full_cmd, i + 1, full_cmd.len());
        assert(full_cmd@ =~= name@ + seq![32u8] + args@);
        (name, args)
    } else {
        let name = slice_subrange(full_cmd, 0, i);
        let args = slice_subrange(full_cmd, i, i);
        assert(name@ =~= full_cmd@);
        assert(args@ =~= Seq::<u8>::empty());
        (name, args)
    }
}

/// The length of the run of bytes at the head of `s` that are not white space.
pub open spec fn word_len(s: Seq<u8>) -> nat
    decreases s.len(),
{
    if s.len() > 0 && !is_space(s[0]) {
        1 + word_len(s.drop_first())
    } else {
        0
    }
}

/// A word never runs past the end.
pub proof fn lemma_word_len_bound(s: Seq<u8>)
    ensures
        word_len(s) <= s.len(),
    decreases s.len(),
{
    if s.len() > 0 && !is_space(s[0]) {
        lemma_word_len_bound(s.drop_first());
    }
}

/// The words of `s`: the maximal runs of bytes that are not white space, in order.
pub open spec fn spec_words(s: Seq<u8>) -> Seq<Seq<u8>>
    decreases s.len(),
{
    if s.len() == 0 {
        Seq::empty()
    } else if is_space(s[0]) {
        spec_words(s.drop_first())
    } else {
        let n = word_len(s) as int;
        if 1 <= n <= s.len() {
            seq![s.subrange(0, n)] + spec_words(s.subrange(n, s.len() as int))
        } else {
            Seq::empty()
        }
    }
}

/// What each of the byte strings in `lines` holds.
pub open spec fn views(lines: Seq<Vec<u8>>) -> Seq<Seq<u8>> {
    lines.map_values(|line: Vec<u8>| line@)
}

/// Splits `s` at white space into its words.
pub fn split_words(s: &[u8]) -> (words: Vec<Vec<u8>>)
    ensures
        views(words@) == spec_words(s@),
{
    let mut words: Vec<Vec<u8>> = Vec::new();
    let mut i: usize = 0;
    assert(s@.subrange(0, s@.len() as int) =~= s@);
    assert(views(words@) =~= Seq::<Seq<u8>>::empty());
    while i < s.len()
        invariant
            i <= s.len(),
            spec_words(s@) == views(words@) + spec_words(
                s@.subrange(i as int, s@.len() as int),
            ),
        decreases s.len() - i,
    {
        let ghost rest = s@.subrange(i as int, s@.len() as int);
        if is_space_byte(s[i]) {
            assert(rest.drop_first() =~= s@.subrange(i + 1, s@.len() as int));
            i += 1;
        } else {
            let mut j: usize = i;
            while j < s.len() && !is_space_byte(s[j])
                invariant
                    i <= j <= s.len(),
                    rest == s@.subrange(i as int, s@.len() as int),
                    word_len(rest) == (j - i) + word_len(s@.subrange(j as int, s@.len() as int)),
                decreases s.len() - j,
            {
                assert(s@.subrange(j as int, s@.len() as int).drop_first() =~= s@.subrange(
                    j + 1,
                    s@.len() as int,
                ));
                j += 1;
            }
            let word = copy_bytes(slice_subrange(s, i, j));
            proof {
                lemma_word_len_bound(rest);
                assert(word_len(rest) == j - i);
                assert(rest.subrange(0, j - i) =~= word@);
                assert(rest.subrange(j - i, rest.len() as int) =~= s@.subrange(
                    j as int,
                    s@.len() as int,
                ));
            }
            let ghost before = views(words@);
            words.push(word);
            assert(views(words@) =~= before + seq![word@]);
            i = j;
        }
    }
    assert(spec_words(s@.subrange(i as int, s@.len() as int)) =~= Seq::<Seq<u8>>::empty());
    assert(views(words@) + Seq::<Seq<u8>>::empty() =~= views(words@));
    words
}

/// The lower-case form of an ASCII capital; every other byte stays as it is.
pub open spec fn lower(b: u8) -> u8 {
    if 65 <= b <= 90 {
        (b + 32) as u8
    } else {
        b
    }
}

/// `s` with its ASCII capitals in lower case.
pub open spec fn spec_lowercase(s: Seq<u8>) -> Seq<u8> {
    Seq::new(s.len(), |i: int| lower(s[i]))
}

/// `s` with its ASCII capitals in lower case.
pub fn lowercase(s: &[u8]) -> (lowered: Vec<u8>)
    ensures
        lowered@ == spec_lowercase(s@),
{
    let mut lowered: Vec<u8> = Vec::new();
    let mut i: usize = 0;
    while i < s.len()
        invariant
            i <= s.len(),
            lowered@.len() == i,
            forall|j: int| 0 <= j < i ==> lowered@[j] == lower(s@[j]),
        decreases s.len() - i,
    {
        let b = s[i];
        if 65 <= b && b <= 90 {
            lowered.push(b + 32);
        } else {
            lowered.push(b);
        }
        i += 1;
    }
    assert(lowered@ =~= spec_lowercase(s@));
    lowered
}

} // verus!
