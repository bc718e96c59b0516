//! Laws about texts: what trimming leaves, what a number reads as, how texts are joined,
//! searched and ordered.

use vstd::prelude::*;
use crate::text::ascii_lower;
use crate::text::ascii_upper;
use crate::text::clone_opt;
use crate::text::clone_strings;
use crate::text::contains_string;
use crate::text::contains_text;
use crate::text::decimal;
use crate::text::decimal_text;
use crate::text::digit_char;
use crate::text::has_part;
use crate::text::has_prefix;
use crate::text::has_suffix;
use crate::text::is_white_space;
use crate::text::join;
use crate::text::joined;
use crate::text::less;
use crate::text::nonempty_trimmed;
use crate::text::signed_decimal;
use crate::text::signed_decimal_text;
use crate::text::starts_with;
use crate::text::text_eq;
use crate::text::text_less;
use crate::text::trim;
use crate::text::trim_nonempty;
use crate::text::trimmed;
use crate::text::trimmed_end;
use crate::text::trimmed_start;
use crate::text::views;
use crate::text::white_space;

verus! {

/// White space is the tab and the line and page breaks, the space, and the spaces and
/// separators of Unicode.
pub proof fn white_space_goes_by_code(c: char, r: bool)
    requires
        call_ensures(white_space, (c,), r),
    ensures
        r <==> {
            let code = c as u32;
            9 <= code <= 13 || code == 32 || code == 0x85 || code == 0xa0 || code == 0x1680
                || 0x2000 <= code <= 0x200a || code == 0x2028 || code == 0x2029 || code == 0x202f
                || code == 0x205f || code == 0x3000
        },
        r == is_white_space(c),
{
}

/// Whether a text is nothing but white space.
pub open spec fn blank(s: Seq<char>) -> bool {
    forall|i: int| 0 <= i < s.len() ==> is_white_space(#[trigger] s[i])
}

/// Whether `part` is `whole` but for white space at the two ends, and has none of it left there.
pub open spec fn is_bare(whole: Seq<char>, part: Seq<char>) -> bool {
    &&& part.len() > 0 ==> !is_white_space(part[0]) && !is_white_space(part.last())
    &&& exists|from: int|
        0 <= from <= whole.len() - part.len() && #[trigger] whole.subrange(from, from + part.len())
            == part && blank(whole.subrange(0, from)) && blank(
            whole.subrange(from + part.len(), whole.len() as int),
        )
}

proof fn start_is_cut(s: Seq<char>)
    ensures
        trimmed_start(s).len() <= s.len(),
        trimmed_start(s) == s.subrange(s.len() - trimmed_start(s).len(), s.len() as int),
        blank(s.subrange(0, s.len() - trimmed_start(s).len())),
        trimmed_start(s).len() > 0 ==> !is_white_space(trimmed_start(s)[0]),
    decreases s.len(),
{
    if s.len() > 0 && is_white_space(s[0]) {
        let rest = s.subrange(1, s.len() as int);
        start_is_cut(rest);
        let n = trimmed_start(s).len();
        assert(trimmed_start(s) =~= s.subrange(s.len() - n, s.len() as int));
        assert forall|i: int| 0 <= i < s.len() - n implies is_white_space(
            #[trigger] s.subrange(0, s.len() - n)[i],
        ) by {
            if i > 0 {
                assert(rest.subrange(0, rest.len() - n)[i - 1] == s[i]);
            }
        }
    } else {
        assert(s =~= s.subrange(0, s.len() as int));
    }
}

proof fn end_is_cut(s: Seq<char>)
    ensures
        trimmed_end(s).len() <= s.len(),
        trimmed_end(s) == s.subrange(0, trimmed_end(s).len() as int),
        blank(s.subrange(trimmed_end(s).len() as int, s.len() as int)),
        trimmed_end(s).len() > 0 ==> !is_white_space(trimmed_end(s).last()),
    decreases s.len(),
{
    if s.len() > 0 && is_white_space(s.last()) {
        let rest = s.drop_last();
        end_is_cut(rest);
        let n = trimmed_end(s).len();
        assert(trimmed_end(s) =~= s.subrange(0, n as int));
        let cut = s.subrange(n as int, s.len() as int);
        assert forall|i: int| 0 <= i < cut.len() implies is_white_space(#[trigger] cut[i]) by {
            if i < cut.len() - 1 {
                assert(rest.subrange(n as int, rest.len() as int)[i] == cut[i]);
            } else {
                assert(cut[i] == s.last());
            }
        }
    } else {
        assert(s =~= s.subrange(0, s.len() as int));
    }
}

/// Trimming cuts white space, and only white space, off the two ends, and leaves none there.
pub proof fn trimming_cuts_the_white_space_at_the_ends(s: Seq<char>)
    ensures
        is_bare(s, trimmed(s)),
        trimmed(s).len() == 0 <==> blank(s),
        nonempty_trimmed(s) is None <==> blank(s),
        nonempty_trimmed(s) matches Some(t) ==> t.len() > 0 && is_bare(s, t),
{
    let t = trimmed_start(s);
    let r = trimmed_end(t);
    start_is_cut(s);
    end_is_cut(t);
    let from = s.len() - t.len();
    assert(s.subrange(from, from + r.len()) =~= r);
    let tail = s.subrange(from + r.len(), s.len() as int);
    let cut = t.subrange(r.len() as int, t.len() as int);
    assert(tail =~= cut);
    if r.len() > 0 {
        assert(r[0] == t[0]);
        let k = from;
        assert(r[0] == s[k]);
        assert(!is_white_space(s[k]));
    } else {
        assert forall|i: int| 0 <= i < s.len() implies is_white_space(#[trigger] s[i]) by {
            if i < from {
                assert(s.subrange(0, from)[i] == s[i]);
            } else {
                assert(tail[i - from] == s[i]);
            }
        }
    }
}

/// There is one way to trim a text.
pub proof fn there_is_one_way_to_trim(whole: Seq<char>, part: Seq<char>)
    requires
        is_bare(whole, part),
    ensures
        part == trimmed(whole),
{
    trimming_cuts_the_white_space_at_the_ends(whole);
    let t = trimmed(whole);
    let a = choose|from: int|
        0 <= from <= whole.len() - part.len() && #[trigger] whole.subrange(from, from + part.len())
            == part && blank(whole.subrange(0, from)) && blank(
            whole.subrange(from + part.len(), whole.len() as int),
        );
    let b = choose|from: int|
        0 <= from <= whole.len() - t.len() && #[trigger] whole.subrange(from, from + t.len()) == t
            && blank(whole.subrange(0, from)) && blank(
            whole.subrange(from + t.len(), whole.len() as int),
        );
    let after_a = whole.subrange(a + part.len(), whole.len() as int);
    let after_b = whole.subrange(b + t.len(), whole.len() as int);
    let before_a = whole.subrange(0, a);
    let before_b = whole.subrange(0, b);
    if part.len() == 0 {
        assert forall|i: int| 0 <= i < whole.len() implies is_white_space(#[trigger] whole[i]) by {
            if i < a {
                assert(before_a[i] == whole[i]);
            } else {
                assert(after_a[i - a] == whole[i]);
            }
        }
        assert(t =~= part);
    } else {
        assert(part[0] == whole[a]);
        assert(part.last() == whole[a + part.len() - 1]);
        assert(!blank(whole));
        assert(t.len() > 0);
        assert(t[0] == whole[b]);
        assert(t.last() == whole[b + t.len() - 1]);
        if a < b {
            assert(before_b[a] == whole[a]);
        }
        if b < a {
            assert(before_a[b] == whole[b]);
        }
        assert(a == b);
        let end_a = a + part.len() - 1;
        let end_b = b + t.len() - 1;
        if end_a < end_b {
            assert(after_a[end_b - (a + part.len())] == whole[end_b]);
        }
        if end_b < end_a {
            assert(after_b[end_a - (b + t.len())] == whole[end_a]);
        }
        assert(t =~= part);
    }
}

/// White space put around a text changes nothing of what trimming leaves.
pub proof fn white_space_around_a_text_does_not_matter(
    before: Seq<char>,
    s: Seq<char>,
    after: Seq<char>,
)
    requires
        blank(before),
        blank(after),
    ensures
        trimmed(before + s + after) == trimmed(s),
{
    trimming_cuts_the_white_space_at_the_ends(s);
    let t = trimmed(s);
    let whole = before + s + after;
    let from = choose|from: int|
        0 <= from <= s.len() - t.len() && #[trigger] s.subrange(from, from + t.len()) == t && blank(
            s.subrange(0, from),
        ) && blank(s.subrange(from + t.len(), s.len() as int));
    let at = before.len() + from;
    assert(whole.subrange(at, at + t.len()) =~= t) by {
        assert forall|i: int| 0 <= i < t.len() implies whole.subrange(at, at + t.len())[i] == t[i] by {
            assert(s.subrange(from, from + t.len())[i] == t[i]);
        }
    }
    let head = whole.subrange(0, at);
    let tail = whole.subrange(at + t.len(), whole.len() as int);
    assert forall|i: int| 0 <= i < head.len() implies is_white_space(#[trigger] head[i]) by {
        if i < before.len() {
            assert(head[i] == before[i]);
        } else {
            assert(head[i] == s.subrange(0, from)[i - before.len()]);
        }
    }
    assert forall|i: int| 0 <= i < tail.len() implies is_white_space(#[trigger] tail[i]) by {
        let rest = s.subrange(from + t.len(), s.len() as int);
        if i < rest.len() {
            assert(tail[i] == rest[i]);
        } else {
            assert(tail[i] == after[i - rest.len()]);
        }
    }
    there_is_one_way_to_trim(whole, t);
}

/// What `trim` and `trim_nonempty` return: the bare text, and nothing for a blank one.
pub proof fn trim_returns_the_bare_text(s: &str, r: String, o: Option<String>)
    requires
        call_ensures(trim, (s,), r),
        call_ensures(trim_nonempty, (s,), o),
    ensures
        is_bare(s@, r@),
        o is None <==> blank(s@),
        o matches Some(t) ==> t@ == r@,
{
    trimming_cuts_the_white_space_at_the_ends(s@);
}

/// The number that a text of decimal digits reads as.
pub open spec fn number_read(s: Seq<char>) -> int
    decreases s.len(),
{
    if s.len() == 0 {
        0
    } else {
        10 * number_read(s.drop_last()) + (s.last() as u32 - 48)
    }
}

/// A number is written in decimal digits, reads as itself, and starts with a zero only where
/// it is zero.
pub proof fn a_number_reads_as_itself(n: nat)
    ensures
        number_read(decimal(n)) == n,
        decimal(n).len() > 0,
        forall|i: int| 0 <= i < decimal(n).len() ==> 48 <= (#[trigger] decimal(n)[i] as u32) <= 57,
        decimal(n)[0] == '0' ==> n == 0,
    decreases n,
{
    reveal_with_fuel(number_read, 2);
    let s = decimal(n);
    if n < 10 {
        assert(s.drop_last() =~= Seq::<char>::empty());
        assert((digit_char(n as int) as u32) == 48 + n);
    } else {
        a_number_reads_as_itself(n / 10);
        assert(s.drop_last() =~= decimal(n / 10));
        assert((digit_char((n % 10) as int) as u32) == 48 + n % 10);
        assert(s[0] == decimal(n / 10)[0]);
    }
}

/// Two numbers are written alike only where they are one, also behind a sign.
pub proof fn numbers_are_told_apart(a: int, b: int)
    requires
        signed_decimal(a) == signed_decimal(b),
    ensures
        a == b,
{
    let x = if a < 0 { -a } else { a };
    let y = if b < 0 { -b } else { b };
    a_number_reads_as_itself(x as nat);
    a_number_reads_as_itself(y as nat);
    assert(decimal(x as nat)[0] != '-');
    assert(decimal(y as nat)[0] != '-');
    if a < 0 && b < 0 {
        assert(signed_decimal(a).subrange(1, signed_decimal(a).len() as int) =~= decimal(x as nat));
        assert(signed_decimal(b).subrange(1, signed_decimal(b).len() as int) =~= decimal(y as nat));
    } else if a < 0 {
        assert(signed_decimal(a)[0] == '-');
    } else if b < 0 {
        assert(signed_decimal(b)[0] == '-');
    }
}

/// Joining puts the separator behind the first part and the rest, joined, behind that; one
/// part alone stands as it is.
pub proof fn parts_are_joined_in_order(parts: Seq<Seq<char>>, separator: Seq<char>)
    ensures
        parts.len() == 0 ==> joined(parts, separator).len() == 0,
        parts.len() == 1 ==> joined(parts, separator) == parts[0],
        parts.len() > 1 ==> joined(parts, separator) == parts[0] + separator + joined(
            parts.subrange(1, parts.len() as int),
            separator,
        ),
    decreases parts.len(),
{
    if parts.len() > 1 {
        let rest = parts.subrange(1, parts.len() as int);
        let front = parts.drop_last();
        parts_are_joined_in_order(front, separator);
        if parts.len() == 2 {
            assert(joined(front, separator) == parts[0]);
            assert(joined(rest, separator) == parts[1]);
        } else {
            assert(front.subrange(1, front.len() as int) =~= rest.drop_last());
            assert(joined(parts, separator) =~= parts[0] + separator + joined(rest, separator));
        }
    }
}

/// Each part stands in the joined text.
pub proof fn joining_keeps_each_part(parts: Seq<Seq<char>>, separator: Seq<char>, i: int)
    requires
        0 <= i < parts.len(),
    ensures
        has_part(joined(parts, separator), parts[i]),
    decreases parts.len(),
{
    let whole = joined(parts, separator);
    if parts.len() == 1 {
        a_text_has_its_parts(Seq::empty(), parts[0], Seq::empty());
        assert(Seq::<char>::empty() + parts[0] + Seq::<char>::empty() =~= whole);
    } else if i == parts.len() - 1 {
        a_text_has_its_parts(joined(parts.drop_last(), separator) + separator, parts[i], Seq::empty());
        assert(joined(parts.drop_last(), separator) + separator + parts[i] + Seq::<char>::empty()
            =~= whole);
    } else {
        joining_keeps_each_part(parts.drop_last(), separator, i);
        let front = joined(parts.drop_last(), separator);
        a_part_of_a_part(Seq::empty(), front, separator + parts.last(), parts[i]);
        assert(Seq::<char>::empty() + front + (separator + parts.last()) =~= whole);
    }
}

/// A text has each of its pieces as a part, starts with the first and ends with the last.
pub proof fn a_text_has_its_parts(a: Seq<char>, b: Seq<char>, c: Seq<char>)
    ensures
        has_part(a + b + c, b),
        has_prefix(a + b + c, a),
        has_suffix(a + b + c, c),
{
    let whole = a + b + c;
    assert(whole.subrange(a.len() as int, a.len() as int + b.len()) =~= b);
    assert(whole.subrange(0, a.len() as int) =~= a);
    assert(whole.subrange(whole.len() - c.len(), whole.len() as int) =~= c);
}

/// A text has the parts of its pieces.
pub proof fn a_part_of_a_part(a: Seq<char>, b: Seq<char>, c: Seq<char>, needle: Seq<char>)
    requires
        has_part(b, needle),
    ensures
        has_part(a + b + c, needle),
{
    let i = choose|i: int|
        0 <= i <= b.len() - needle.len() && #[trigger] b.subrange(i, i + needle.len()) == needle;
    let whole = a + b + c;
    let at = a.len() + i;
    assert(whole.subrange(at, at + needle.len()) =~= needle) by {
        assert forall|k: int| 0 <= k < needle.len() implies whole.subrange(at, at + needle.len())[k]
            == needle[k] by {
            assert(b.subrange(i, i + needle.len())[k] == needle[k]);
        }
    }
}

/// One text comes before another exactly where, at the first place at which they differ, it
/// has ended or has the smaller character.
pub proof fn texts_are_ordered_where_they_first_differ(a: Seq<char>, b: Seq<char>, k: int)
    requires
        0 <= k <= a.len(),
        k <= b.len(),
        a.subrange(0, k) == b.subrange(0, k),
        k < a.len() && k < b.len() ==> a[k] != b[k],
        k < a.len() || k < b.len(),
    ensures
        k == a.len() ==> text_less(a, b),
        k == b.len() ==> !text_less(a, b),
        k < a.len() && k < b.len() ==> (text_less(a, b) <==> a[k] < b[k]),
    decreases k,
{
    if k > 0 {
        assert forall|i: int| 0 <= i < k implies #[trigger] a[i] == b[i] by {
            assert(a.subrange(0, k)[i] == a[i]);
            assert(b.subrange(0, k)[i] == b[i]);
        }
        let x = a.subrange(1, a.len() as int);
        let y = b.subrange(1, b.len() as int);
        assert(x.subrange(0, k - 1) =~= y.subrange(0, k - 1));
        assert(a[0] == b[0]);
        texts_are_ordered_where_they_first_differ(x, y, k - 1);
    }
}

/// What `join` and `less` return, part by part and character by character.
pub proof fn join_and_less_return(
    parts: Vec<String>,
    separator: &str,
    whole: String,
    a: &str,
    b: &str,
    r: bool,
    i: int,
)
    requires
        call_ensures(join, (&parts, separator), whole),
        call_ensures(less, (a, b), r),
        0 <= i < parts@.len(),
    ensures
        has_part(whole@, parts@[i]@),
        r == text_less(a@, b@),
{
    joining_keeps_each_part(views(parts@), separator@, i);
    assert(views(parts@)[i] == parts@[i]@);
}

/// A text holds another exactly where it is that text with something before and behind it, and
/// starts with another exactly where it is that text with something behind it.
pub proof fn parts_and_beginnings_are_found(
    text: &str,
    needle: &str,
    within: bool,
    first: bool,
    before: Seq<char>,
    after: Seq<char>,
)
    requires
        call_ensures(contains_text, (text, needle), within),
        call_ensures(starts_with, (text, needle), first),
    ensures
        text@ == before + needle@ + after ==> within,
        within ==> exists|i: int|
            0 <= i <= text@.len() - needle@.len() && #[trigger] text@.subrange(i, i + needle@.len())
                == needle@,
        text@ == needle@ + after ==> first,
        first ==> needle@.len() <= text@.len() && text@.subrange(0, needle@.len() as int) == needle@,
{
    if text@ == before + needle@ + after {
        a_text_has_its_parts(before, needle@, after);
    }
    if text@ == needle@ + after {
        a_text_has_its_parts(needle@, after, seq![]);
        assert(needle@ + after + seq![] =~= needle@ + after);
    }
}

/// A number is written in decimal digits that read as it, behind a sign where it is negative.
pub proof fn numbers_are_written_in_decimal(n: u64, written: String, m: i32, signed: String)
    requires
        call_ensures(decimal_text, (n,), written),
        call_ensures(signed_decimal_text, (m,), signed),
    ensures
        number_read(written@) == n,
        forall|i: int| 0 <= i < written@.len() ==> 48 <= (#[trigger] written@[i] as u32) <= 57,
        m >= 0 ==> number_read(signed@) == m,
        m < 0 ==> signed@.len() > 0 && signed@[0] == '-' && number_read(
            signed@.subrange(1, signed@.len() as int),
        ) == -m,
{
    a_number_reads_as_itself(n as nat);
    if m >= 0 {
        a_number_reads_as_itself(m as nat);
    } else {
        a_number_reads_as_itself((-m) as nat);
        assert(signed@.subrange(1, signed@.len() as int) =~= decimal((-m) as nat));
    }
}

/// Texts are equal where their characters are, and a list holds a text exactly where one of its
/// texts has those characters; copies hold what they are copied from.
pub proof fn texts_go_by_their_characters(
    a: &str,
    b: &str,
    same: bool,
    list: Vec<String>,
    held: bool,
    copy: Vec<String>,
    text: Option<String>,
    copied: Option<String>,
)
    requires
        call_ensures(text_eq, (a, b), same),
        call_ensures(contains_string, (&list, a), held),
        call_ensures(clone_strings, (&list,), copy),
        call_ensures(clone_opt, (&text,), copied),
    ensures
        same <==> a@ == b@,
        held <==> exists|i: int| 0 <= i < list@.len() && (#[trigger] list@[i])@ == a@,
        copy@ == list@,
        copied == text,
{
    let all = views(list@);
    assert(all.len() == list@.len());
    assert forall|i: int| 0 <= i < list@.len() implies #[trigger] all[i] == list@[i]@ by {}
    if held {
        let i = choose|i: int| 0 <= i < all.len() && all[i] == a@;
        assert(list@[i]@ == a@);
    }
    if exists|i: int| 0 <= i < list@.len() && (#[trigger] list@[i])@ == a@ {
        let i = choose|i: int| 0 <= i < list@.len() && (#[trigger] list@[i])@ == a@;
        assert(all[i] == a@);
    }
}

/// The ASCII letters change their case, each to its own other form, and nothing else does.
pub proof fn ascii_letters_change_their_case(c: char)
    ensures
        65 <= (c as u32) <= 90 ==> (ascii_lower(c) as u32) == (c as u32) + 32 && ascii_upper(c) == c,
        97 <= (c as u32) <= 122 ==> (ascii_upper(c) as u32) == (c as u32) - 32 && ascii_lower(c) == c,
        !(65 <= (c as u32) <= 90) ==> ascii_lower(c) == c,
        !(97 <= (c as u32) <= 122) ==> ascii_upper(c) == c,
{
}

/// A text that starts or ends with another is that text with something behind or before it.
pub proof fn beginnings_and_ends_stand_where_they_should(s: Seq<char>, part: Seq<char>)
    ensures
        has_prefix(s, part) ==> part.len() <= s.len() && s == part + s.subrange(
            part.len() as int,
            s.len() as int,
        ),
        has_suffix(s, part) ==> part.len() <= s.len() && s == s.subrange(0, s.len() - part.len())
            + part,
        has_part(s, part) ==> part.len() <= s.len(),
{
    if has_prefix(s, part) {
        assert(s =~= s.subrange(0, part.len() as int) + s.subrange(
            part.len() as int,
            s.len() as int,
        ));
    }
    if has_suffix(s, part) {
        assert(s =~= s.subrange(0, s.len() - part.len()) + s.subrange(
            s.len() - part.len(),
            s.len() as int,
        ));
    }
}

} // verus!
