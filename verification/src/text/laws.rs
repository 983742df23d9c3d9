//! How texts are taken apart and put together.

use vstd::prelude::*;

use crate::text;

verus! {

// ---------------------------------------------------------------------------
// Parts
// ---------------------------------------------------------------------------

/// A text begins with another exactly if it is that text with something behind it. What follows is what
/// is left without the prefix.
pub proof fn lemma_prefixes(whole: Seq<char>, prefix: Seq<char>, rest: Seq<char>)
    ensures
        text::starts_with(prefix + rest, prefix),
        text::after_prefix(prefix + rest, prefix) == Some(rest),
        text::starts_with(whole, prefix) == (text::after_prefix(whole, prefix) is Some),
        text::after_prefix(whole, prefix) is Some ==> whole == prefix + text::after_prefix(whole, prefix)->0,
{
    assert((prefix + rest).take(prefix.len() as int) =~= prefix);
    assert((prefix + rest).skip(prefix.len() as int) =~= rest);
    if text::starts_with(whole, prefix) {
        assert(whole =~= whole.take(prefix.len() as int) + whole.skip(prefix.len() as int));
    }
}

/// A text ends with another exactly if it is that text with something before it.
pub proof fn lemma_suffixes(whole: Seq<char>, suffix: Seq<char>, before: Seq<char>)
    ensures
        text::ends_with(before + suffix, suffix),
        text::ends_with(whole, suffix) ==> whole == whole.take(whole.len() - suffix.len()) + suffix,
{
    assert((before + suffix).skip((before + suffix).len() - suffix.len()) =~= suffix);
    if text::ends_with(whole, suffix) {
        assert(whole =~= whole.take(whole.len() - suffix.len()) + whole.skip(whole.len() - suffix.len()));
    }
}

/// A text holds another wherever something may stand before and behind it.
pub proof fn lemma_parts(before: Seq<char>, part: Seq<char>, behind: Seq<char>)
    ensures
        text::has_part(before + part + behind, part),
{
    let whole = before + part + behind;
    let i = before.len() as int;
    assert(whole.subrange(i, i + part.len()) =~= part);
}

/// A text that holds another is made of it, something before it and something behind it.
pub proof fn lemma_part_is_found(whole: Seq<char>, part: Seq<char>)
    requires
        text::has_part(whole, part),
    ensures
        exists|before: Seq<char>, behind: Seq<char>| whole == #[trigger] (before + part + behind),
{
    let i = choose|i: int|
        0 <= i <= whole.len() - part.len() && #[trigger] whole.subrange(i, i + part.len()) == part;
    let before = whole.take(i);
    let behind = whole.skip(i + part.len());
    assert(whole =~= before + part + behind);
}

/// Taking a prefix away as often as it is there leaves a text that does not begin with it.
pub proof fn lemma_without_prefixes(whole: Seq<char>, prefix: Seq<char>)
    requires
        prefix.len() > 0,
    ensures
        !text::starts_with(text::without_prefixes(whole, prefix), prefix),
        text::without_prefixes(prefix + whole, prefix) == text::without_prefixes(whole, prefix),
        !text::starts_with(whole, prefix) ==> text::without_prefixes(whole, prefix) == whole,
        text::ends_with(whole, text::without_prefixes(whole, prefix)),
    decreases whole.len(),
{
    lemma_prefixes(prefix + whole, prefix, whole);
    assert((prefix + whole).skip(prefix.len() as int) =~= whole);
    let left = text::without_prefixes(whole, prefix);
    if text::starts_with(whole, prefix) {
        let rest = whole.skip(prefix.len() as int);
        lemma_without_prefixes(rest, prefix);
        assert(whole.skip(whole.len() - left.len()) =~= rest.skip(rest.len() - left.len()));
    } else {
        assert(whole.skip(0) =~= whole);
    }
}

/// Texts are joined with the separator between each two of them.
pub proof fn lemma_joined(parts: Seq<Seq<char>>, separator: Seq<char>, one: Seq<char>)
    ensures
        text::join_views(Seq::<Seq<char>>::empty(), separator).len() == 0,
        text::join_views(seq![one], separator) == one,
        parts.len() > 0 ==> text::join_views(parts.push(one), separator) == text::join_views(
            parts,
            separator,
        ) + separator + one,
{
    assert(parts.push(one).drop_last() =~= parts);
}

/// A list is shown in brackets, each item quoted, with a comma and a space between each two.
pub proof fn lemma_shown_list(first: Seq<char>, second: Seq<char>)
    ensures
        text::shown_list(Seq::<Seq<char>>::empty()) == "[]"@,
        text::shown_list(seq![first]) == "["@ + text::quoted_text(first) + "]"@,
        text::shown_list(seq![first, second]) == "["@ + text::quoted_text(first) + ", "@ + text::quoted_text(
            second,
        ) + "]"@,
{
    reveal_strlit("[]");
    reveal_strlit("[");
    reveal_strlit("]");
    let shown = |t: Seq<char>| text::quoted_text(t);
    assert(Seq::<Seq<char>>::empty().map_values(shown) =~= Seq::<Seq<char>>::empty());
    assert(text::shown_list(Seq::<Seq<char>>::empty()) =~= "[]"@);
    assert(seq![first].map_values(shown) =~= seq![text::quoted_text(first)]);
    assert(seq![first, second].map_values(shown) =~= seq![
        text::quoted_text(first),
        text::quoted_text(second),
    ]);
    let two = seq![text::quoted_text(first), text::quoted_text(second)];
    assert(two.drop_last() =~= seq![text::quoted_text(first)]);
    assert(text::join_views(seq![text::quoted_text(first)], ", "@) == text::quoted_text(first));
    assert(text::join_views(two, ", "@) == text::quoted_text(first) + ", "@ + text::quoted_text(second));
    assert(text::shown_list(seq![first, second]) =~= "["@ + text::quoted_text(first) + ", "@
        + text::quoted_text(second) + "]"@);
}

// ---------------------------------------------------------------------------
// Space
// ---------------------------------------------------------------------------

/// Blanks, tabs and line breaks are space; letters, digits and signs are not.
pub proof fn lemma_space()
    ensures
        text::is_space(' '),
        text::is_space('\t'),
        text::is_space('\n'),
        text::is_space('\r'),
        !text::is_space('a'),
        !text::is_space('Z'),
        !text::is_space('0'),
        !text::is_space('/'),
        !text::is_space('-'),
        !text::is_space('_'),
        forall|c: char| '!' <= c <= '~' ==> !(#[trigger] text::is_space(c)),
{
}

/// A trimmed text neither begins nor ends with space, and a text that does neither is left as it is.
pub proof fn lemma_trimmed(whole: Seq<char>)
    ensures
        ({
            let left = text::trimmed(whole);
            &&& left.len() > 0 ==> !text::is_space(left[0]) && !text::is_space(left.last())
            &&& text::has_part(whole, left)
        }),
        whole.len() > 0 && !text::is_space(whole[0]) && !text::is_space(whole.last()) ==> text::trimmed(whole)
            == whole,
{
    lemma_trim_start(whole);
    let begun = text::trim_start(whole);
    lemma_trim_end(begun);
    let left = text::trimmed(whole);
    let i = whole.len() - begun.len();
    assert(whole.subrange(i, i + left.len()) =~= whole.skip(i).take(left.len() as int));
    if left.len() > 0 {
        assert(left[0] == begun[0]);
    }
}

proof fn lemma_trim_start(whole: Seq<char>)
    ensures
        text::trim_start(whole).len() <= whole.len(),
        text::trim_start(whole) == whole.skip(whole.len() - text::trim_start(whole).len()),
        text::trim_start(whole).len() > 0 ==> !text::is_space(text::trim_start(whole)[0]),
    decreases whole.len(),
{
    if whole.len() > 0 && text::is_space(whole[0]) {
        lemma_trim_start(whole.drop_first());
        let left = text::trim_start(whole);
        assert(whole.skip(whole.len() - left.len()) =~= whole.drop_first().skip(
            whole.len() - 1 - left.len(),
        ));
    } else {
        assert(whole.skip(0) =~= whole);
    }
}

proof fn lemma_trim_end(whole: Seq<char>)
    ensures
        text::trim_end(whole).len() <= whole.len(),
        text::trim_end(whole) == whole.take(text::trim_end(whole).len() as int),
        text::trim_end(whole).len() > 0 ==> !text::is_space(text::trim_end(whole).last()),
    decreases whole.len(),
{
    if whole.len() > 0 && text::is_space(whole.last()) {
        lemma_trim_end(whole.drop_last());
        let left = text::trim_end(whole);
        assert(whole.take(left.len() as int) =~= whole.drop_last().take(left.len() as int));
    } else {
        assert(whole.take(whole.len() as int) =~= whole);
    }
}

/// No word is empty, and none holds space.
pub proof fn lemma_words(whole: Seq<char>, i: int)
    requires
        0 <= i < text::words(whole).len(),
    ensures
        text::words(whole)[i].len() > 0,
        forall|k: int| 0 <= k < text::words(whole)[i].len() ==> !text::is_space(#[trigger] text::words(whole)[i][k]),
    decreases whole.len(),
{
    if text::is_space(whole[0]) {
        lemma_words(whole.drop_first(), i);
    } else {
        text::lemma_word_len_bounds(whole);
        let n = text::word_len(whole) as int;
        let rest = whole.skip(n);
        assert(text::words(whole) == seq![whole.take(n)] + text::words(rest));
        if i == 0 {
            lemma_word_has_no_space(whole);
            assert forall|k: int| 0 <= k < text::words(whole)[i].len() implies !text::is_space(
                #[trigger] text::words(whole)[i][k],
            ) by {
                assert(text::words(whole)[i][k] == whole[k]);
            }
        } else {
            lemma_words(rest, i - 1);
            assert(text::words(whole)[i] == text::words(rest)[i - 1]);
        }
    }
}

proof fn lemma_word_has_no_space(whole: Seq<char>)
    ensures
        text::word_len(whole) <= whole.len(),
        forall|k: int| 0 <= k < text::word_len(whole) ==> !text::is_space(#[trigger] whole[k]),
    decreases whole.len(),
{
    if whole.len() > 0 && !text::is_space(whole[0]) {
        lemma_word_has_no_space(whole.drop_first());
        assert forall|k: int| 0 <= k < text::word_len(whole) implies !text::is_space(#[trigger] whole[k]) by {
            if k > 0 {
                assert(whole[k] == whole.drop_first()[k - 1]);
            }
        }
    }
}

// ---------------------------------------------------------------------------
// Numbers
// ---------------------------------------------------------------------------

/// The digits of a number are read back as the number.
pub proof fn lemma_decimal_is_read_back(n: nat)
    ensures
        text::digits_value(text::decimal(n)) == n,
        text::decimal(n).len() > 0,
        forall|i: int| 0 <= i < text::decimal(n).len() ==> text::is_digit(#[trigger] text::decimal(n)[i]),
    decreases n,
{
    if n < 10 {
        assert(text::decimal(n).drop_last() =~= seq![]);
        assert(text::digits_value(seq![]) == 0);
    } else {
        lemma_decimal_is_read_back(n / 10);
        let last = text::digit(n % 10);
        assert(text::decimal(n).drop_last() =~= text::decimal(n / 10));
        assert(text::decimal(n).last() == last);
        assert(n % 10 < 10);
        assert((last as nat - '0' as nat) == n % 10);
        assert(n == 10 * (n / 10) + n % 10);
    }
}

/// What is written of a number is read as the same number, with or without a plus sign.
pub proof fn lemma_number_is_read_back(n: u64)
    ensures
        text::parsed_number(text::decimal(n as nat)) == Some(n),
        text::parsed_number(seq!['+'] + text::decimal(n as nat)) == Some(n),
{
    let digits = text::decimal(n as nat);
    lemma_decimal_is_read_back(n as nat);
    text::lemma_decimal_has_no_sign(n as nat);
    assert(text::is_digit(digits[0]));
    assert(text::without_plus(digits) == digits);
    assert((seq!['+'] + digits).drop_first() =~= digits);
}

/// A text that is no number is not read as one: one without digits, and one with a sign or a letter in
/// it.
pub proof fn lemma_other_texts_are_no_numbers(whole: Seq<char>, i: int)
    ensures
        text::parsed_number(Seq::<char>::empty()) is None,
        0 < i < whole.len() && !text::is_digit(whole[i]) ==> text::parsed_number(whole) is None,
        whole.len() > 0 && !text::is_digit(whole[0]) && whole[0] != '+' ==> text::parsed_number(whole)
            is None,
        forall|c: char| #[trigger] text::is_digit(c) <==> '0' <= c <= '9',
{
    let digits = text::without_plus(whole);
    if 0 < i < whole.len() && !text::is_digit(whole[i]) {
        if whole[0] == '+' {
            assert(digits[i - 1] == whole[i]);
        } else {
            assert(digits[i] == whole[i]);
        }
    }
    if whole.len() > 0 && !text::is_digit(whole[0]) && whole[0] != '+' {
        assert(digits[0] == whole[0]);
    }
}

/// A negative number has a minus sign before its digits, and no other number has a sign.
pub proof fn lemma_signed(n: int)
    ensures
        n >= 0 ==> text::signed_decimal(n) == text::decimal(n as nat),
        n < 0 ==> text::signed_decimal(n) == seq!['-'] + text::decimal((-n) as nat),
{
}

// ---------------------------------------------------------------------------
// Words
// ---------------------------------------------------------------------------

proof fn lemma_word_len_of(word: Seq<char>, rest: Seq<char>)
    requires
        forall|k: int| 0 <= k < word.len() ==> !text::is_space(#[trigger] word[k]),
        rest.len() == 0 || text::is_space(rest[0]),
    ensures
        text::word_len(word + rest) == word.len(),
    decreases word.len(),
{
    let whole = word + rest;
    if word.len() == 0 {
        assert(whole =~= rest);
    } else {
        let shorter = word.drop_first();
        assert(whole[0] == word[0]);
        assert(whole.drop_first() =~= shorter + rest);
        assert forall|k: int| 0 <= k < shorter.len() implies !text::is_space(#[trigger] shorter[k]) by {
            assert(shorter[k] == word[k + 1]);
        }
        lemma_word_len_of(shorter, rest);
    }
}

/// The words of a text: space in front does not count, and a word ends with the next space or with the
/// text. A text without words has none.
pub proof fn lemma_words_one_by_one(word: Seq<char>, space: char, rest: Seq<char>)
    requires
        word.len() > 0,
        forall|k: int| 0 <= k < word.len() ==> !text::is_space(#[trigger] word[k]),
        text::is_space(space),
    ensures
        text::words(Seq::<char>::empty()).len() == 0,
        text::words(seq![space] + rest) == text::words(rest),
        text::words(word) == seq![word],
        text::words(word + seq![space] + rest) == seq![word] + text::words(rest),
{
    assert((seq![space] + rest).drop_first() =~= rest);
    let n = word.len() as int;
    lemma_word_len_of(word, Seq::<char>::empty());
    assert(word + Seq::<char>::empty() =~= word);
    assert(word.take(n) =~= word);
    assert(word.skip(n) =~= Seq::<char>::empty());
    assert(text::words(word.skip(n)).len() == 0);
    assert(text::words(word) == seq![word.take(n)] + text::words(word.skip(n)));
    assert(text::words(word) =~= seq![word]);
    let tail = seq![space] + rest;
    let whole = word + seq![space] + rest;
    lemma_word_len_of(word, tail);
    assert(word + tail =~= whole);
    assert(whole[0] == word[0]);
    assert(whole.take(n) =~= word);
    assert(whole.skip(n) =~= tail);
}

} // verus!
