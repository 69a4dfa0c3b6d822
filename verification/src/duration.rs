//! Reading a duration from the command line.

use vstd::prelude::*;

use crate::numeral::{decimal, two_digits};
use crate::span::{law_parts_add_up, Hms, Span, HOUR, SECOND};

verus! {

/// The duration, in seconds, where none is given or it has too many fields.
pub const DEFAULT_SECONDS: u32 = 60;

/// A number that was read, and how many seconds its unit has.
#[derive(Debug, PartialEq, Eq)]
pub struct Term<N> {
    pub value: N,
    pub unit: u32,
}

/// A duration that was read: a sum of terms, or the default.
#[derive(Debug, PartialEq, Eq)]
pub enum Reading<N> {
    Sum(Vec<Term<N>>),
    Default,
}

/// The fields of a text, which colons separate. There is always at least one.
pub open spec fn fields(s: Seq<char>) -> Seq<Seq<char>>
    decreases s.len(),
{
    if s.len() == 0 {
        seq![Seq::empty()]
    } else {
        let before = fields(s.drop_last());
        if s.last() == ':' {
            before.push(Seq::empty())
        } else {
            before.update(before.len() - 1, before.last().push(s.last()))
        }
    }
}

/// The seconds in the unit of field `i` of `count` fields: the last field is
/// seconds, the one before it minutes, the one before that hours.
pub open spec fn unit(count: int, i: int) -> u32 {
    if i == count - 1 {
        1
    } else if i == count - 2 {
        60
    } else {
        3600
    }
}

/// Asked to read `field` as a number, `number` may answer `answer`.
pub open spec fn reads<N, E, F: Fn(&str) -> Result<N, E>>(
    number: F,
    field: Seq<char>,
    answer: Result<N, E>,
) -> bool {
    exists|text: &str| text@ == field && #[trigger] call_ensures(number, (text,), answer)
}

/// Asked to read `field`, `number` may answer with a number.
pub open spec fn can_read<N, E, F: Fn(&str) -> Result<N, E>>(number: F, field: Seq<char>) -> bool {
    exists|value: N| reads(number, field, Ok(value))
}

/// Reading the parts one after the other, `number` may get as far as part `i`
/// and answer there with the error `e`.
pub open spec fn fails_at<N, E, F: Fn(&str) -> Result<N, E>>(
    number: F,
    parts: Seq<Seq<char>>,
    i: int,
    e: E,
) -> bool {
    &&& 0 <= i < parts.len()
    &&& reads(number, parts[i], Err(e))
    &&& forall|j: int| 0 <= j < i ==> can_read(number, #[trigger] parts[j])
}

/// Reading `s` as a duration may give `result`: the default for more than three
/// fields, else one term for each field if all are numbers, else the error of
/// the first field that is none.
pub open spec fn parses_to<N, E, F: Fn(&str) -> Result<N, E>>(
    number: F,
    s: Seq<char>,
    result: Result<Reading<N>, E>,
) -> bool {
    match result {
        Ok(Reading::Default) => fields(s).len() > 3,
        Ok(Reading::Sum(terms)) => {
            &&& fields(s).len() <= 3
            &&& terms@.len() == fields(s).len()
            &&& forall|i: int|
                0 <= i < terms@.len() ==> {
                    &&& (#[trigger] terms@[i]).unit == unit(terms@.len() as int, i)
                    &&& reads(number, fields(s)[i], Ok(terms@[i].value))
                }
        },
        Err(e) => {
            &&& fields(s).len() <= 3
            &&& exists|i: int| #[trigger] fails_at(number, fields(s), i, e)
        },
    }
}

/// Reads `HH:MM:SS`, `MM:SS` or plain seconds. Each field goes to `number`,
/// first to last, and the first one that is no number is the error. A text with
/// more than three fields stands for the default, whatever the fields hold.
pub fn parse_hms<N, E, F: Fn(&str) -> Result<N, E>>(s: &str, number: &F) -> (result: Result<
    Reading<N>,
    E,
>)
    requires
        forall|text: &str| call_requires(*number, (text,)),
    ensures
        parses_to(*number, s@, result),
{
    let texts: Vec<&str> = split_fields(s);
    let count: usize = texts.len();
    if count > 3 {
        return Ok(Reading::Default);
    }
    let mut terms: Vec<Term<N>> = Vec::new();
    let mut i: usize = 0;
    while i < count
        invariant
            forall|text: &str| call_requires(*number, (text,)),
            i <= count <= 3,
            count == texts@.len() == fields(s@).len(),
            forall|j: int| 0 <= j < count ==> (#[trigger] texts@[j])@ == fields(s@)[j],
            terms@.len() == i,
            forall|j: int|
                0 <= j < i ==> {
                    &&& (#[trigger] terms@[j]).unit == unit(count as int, j)
                    &&& reads(*number, fields(s@)[j], Ok(terms@[j].value))
                },
        decreases count - i,
    {
        let text: &str = texts[i];
        match number(text) {
            Ok(value) => {
                assert(reads(*number, fields(s@)[i as int], Ok(value)));
                let unit: u32 = if i == count - 1 {
                    1
                } else if i + 2 == count {
                    60
                } else {
                    3600
                };
                terms.push(Term { value, unit });
            },
            Err(e) => {
                proof {
                    assert forall|j: int| 0 <= j < i implies can_read(
                        *number,
                        #[trigger] fields(s@)[j],
                    ) by {
                        assert(reads(*number, fields(s@)[j], Ok(terms@[j].value)));
                    }
                }
                let result: Result<Reading<N>, E> = Err(e);
                assert(fails_at(*number, fields(s@), i as int, result->Err_0));
                return result;
            },
        }
        i = i + 1;
    }
    Ok(Reading::Sum(terms))
}

proof fn lemma_fields_nonempty(s: Seq<char>)
    ensures
        fields(s).len() >= 1,
    decreases s.len(),
{
    if s.len() > 0 {
        lemma_fields_nonempty(s.drop_last());
    }
}

/// Cuts a text at its colons.
fn split_fields(s: &str) -> (texts: Vec<&str>)
    ensures
        texts@.len() == fields(s@).len(),
        forall|j: int| 0 <= j < texts@.len() ==> (#[trigger] texts@[j])@ == fields(s@)[j],
{
    let len: usize = s.unicode_len();
    let mut texts: Vec<&str> = Vec::new();
    let mut start: usize = 0;
    let mut i: usize = 0;
    proof {
        lemma_fields_nonempty(s@.take(0));
        assert(s@.take(0) =~= Seq::<char>::empty());
    }
    while i < len
        invariant
            len == s@.len(),
            start <= i <= len,
            fields(s@.take(i as int)).len() == texts@.len() + 1,
            fields(s@.take(i as int)).last() == s@.subrange(start as int, i as int),
            forall|j: int|
                0 <= j < texts@.len() ==> (#[trigger] texts@[j])@ == fields(s@.take(i as int))[j],
        decreases len - i,
    {
        proof {
            let next = s@.take(i + 1);
            assert(next.drop_last() =~= s@.take(i as int));
            assert(next.last() == s@[i as int]);
            assert(s@.subrange(start as int, i as int).push(s@[i as int]) =~= s@.subrange(
                start as int,
                i + 1,
            ));
            assert(s@.subrange(i + 1, i + 1) =~= Seq::<char>::empty());
        }
        if s.get_char(i) == ':' {
            texts.push(s.substring_char(start, i));
            start = i + 1;
        }
        i = i + 1;
    }
    assert(s@.take(i as int) =~= s@);
    texts.push(s.substring_char(start, len));
    texts
}

/// The fields with a colon between each two.
pub open spec fn joined(parts: Seq<Seq<char>>) -> Seq<char>
    decreases parts.len(),
{
    if parts.len() == 0 {
        Seq::empty()
    } else if parts.len() == 1 {
        parts[0]
    } else {
        joined(parts.drop_last()) + seq![':'] + parts.last()
    }
}

/// The fields of a text hold no colon, and the text is the fields joined by
/// colons.
pub proof fn law_fields_join(s: Seq<char>)
    ensures
        fields(s).len() >= 1,
        joined(fields(s)) == s,
        forall|i: int| 0 <= i < fields(s).len() ==> !(#[trigger] fields(s)[i]).contains(':'),
    decreases s.len(),
{
    if s.len() > 0 {
        let before = fields(s.drop_last());
        let after = fields(s);
        law_fields_join(s.drop_last());
        assert(s.drop_last().push(s.last()) =~= s);
        if s.last() == ':' {
            assert(after.drop_last() =~= before);
            assert(joined(after) =~= s);
        } else {
            assert(after.drop_last() =~= before.drop_last());
            assert(joined(after) =~= joined(before).push(s.last()));
            let old_last = before.last();
            assert(!old_last.contains(':'));
            assert forall|i: int| 0 <= i < after.len() implies !(#[trigger] after[i]).contains(
                ':',
            ) by {
                if i < before.len() - 1 {
                    assert(after[i] == before[i]);
                } else {
                    assert forall|k: int| 0 <= k < after[i].len() implies after[i][k] != ':' by {
                        if k < old_last.len() {
                            assert(after[i][k] == old_last[k]);
                        }
                    }
                }
            }
        }
    }
}

/// A list of parts without colons can be read back from its joined text.
pub proof fn law_join_splits(parts: Seq<Seq<char>>)
    requires
        parts.len() >= 1,
        forall|i: int| 0 <= i < parts.len() ==> !(#[trigger] parts[i]).contains(':'),
    ensures
        fields(joined(parts)) == parts,
    decreases parts.len(),
{
    if parts.len() == 1 {
        lemma_fields_append(Seq::empty(), parts[0]);
        assert(Seq::<char>::empty() + parts[0] =~= parts[0]);
        assert(fields(joined(parts)) =~= parts);
    } else {
        let front = parts.drop_last();
        assert forall|i: int| 0 <= i < front.len() implies !(#[trigger] front[i]).contains(
            ':',
        ) by {
            assert(front[i] == parts[i]);
        }
        law_join_splits(front);
        let head = joined(front) + seq![':'];
        assert(head.drop_last() =~= joined(front));
        assert(fields(head) == front.push(Seq::empty()));
        assert(!parts[parts.len() - 1].contains(':'));
        lemma_fields_append(head, parts.last());
        assert(fields(joined(parts)) =~= parts);
    }
}

/// A text without colons lengthens the last field of what stands before it.
proof fn lemma_fields_append(head: Seq<char>, tail: Seq<char>)
    requires
        !tail.contains(':'),
    ensures
        fields(head).len() >= 1,
        fields(head + tail) == fields(head).update(
            fields(head).len() - 1,
            fields(head).last() + tail,
        ),
    decreases tail.len(),
{
    lemma_fields_nonempty(head);
    if tail.len() == 0 {
        assert(head + tail =~= head);
        assert(fields(head).last() + tail =~= fields(head).last());
        assert(fields(head) =~= fields(head).update(fields(head).len() - 1, fields(head).last()));
    } else {
        let short = tail.drop_last();
        assert forall|k: int| 0 <= k < short.len() implies short[k] != ':' by {
            assert(short[k] == tail[k]);
        }
        lemma_fields_append(head, short);
        assert((head + tail).drop_last() =~= head + short);
        assert((head + tail).last() == tail.last());
        assert(tail[tail.len() - 1] != ':');
        assert((fields(head).last() + short).push(tail.last()) =~= fields(head).last() + tail);
    }
}

proof fn lemma_numeral_has_no_colon(n: nat)
    ensures
        !decimal(n).contains(':'),
        !two_digits(n).contains(':'),
    decreases n,
{
    if n >= 10 {
        lemma_numeral_has_no_colon(n / 10);
        let front = decimal(n / 10);
        assert forall|k: int| 0 <= k < decimal(n).len() implies decimal(n)[k] != ':' by {
            if k < front.len() {
                assert(decimal(n)[k] == front[k]);
            }
        }
    }
}

/// The text that the timer shows for a time, read as a duration, has that
/// time's hours, minutes and seconds as its fields; hours that are none are
/// left out.
pub proof fn law_shown_time_splits(hms: Hms)
    ensures
        hms.hours > 0 ==> fields(hms.text()) == seq![
            two_digits(hms.hours as nat),
            two_digits(hms.minutes as nat),
            two_digits(hms.seconds as nat),
        ],
        hms.hours == 0 ==> fields(hms.text()) == seq![
            two_digits(hms.minutes as nat),
            two_digits(hms.seconds as nat),
        ],
{
    let h = two_digits(hms.hours as nat);
    let m = two_digits(hms.minutes as nat);
    let s = two_digits(hms.seconds as nat);
    lemma_numeral_has_no_colon(hms.hours as nat);
    lemma_numeral_has_no_colon(hms.minutes as nat);
    lemma_numeral_has_no_colon(hms.seconds as nat);
    reveal_with_fuel(joined, 3);
    if hms.hours > 0 {
        let parts = seq![h, m, s];
        assert(parts.drop_last() =~= seq![h, m]);
        assert(seq![h, m].drop_last() =~= seq![h]);
        assert(joined(parts) =~= hms.text());
        law_join_splits(parts);
    } else {
        let parts = seq![m, s];
        assert(parts.drop_last() =~= seq![m]);
        assert(joined(parts) =~= hms.text());
        law_join_splits(parts);
    }
}

/// The seconds that the terms add up to, where `value` says which number each of
/// them holds.
pub open spec fn sum_of<N>(terms: Seq<Term<N>>, value: spec_fn(N) -> int) -> int
    decreases terms.len(),
{
    if terms.len() == 0 {
        0
    } else {
        sum_of(terms.drop_last(), value) + value(terms.last().value) * terms.last().unit
    }
}

/// The seconds that a reading stands for.
pub open spec fn seconds_of<N>(reading: Reading<N>, value: spec_fn(N) -> int) -> int {
    match reading {
        Reading::Sum(terms) => sum_of(terms@, value),
        Reading::Default => DEFAULT_SECONDS as int,
    }
}

/// The time that the timer shows for a span, read as a duration, is the whole
/// seconds of the span, in the form with hours and in the form without. `number`
/// is to read a numeral as its number.
pub proof fn law_shown_time_reads_back<N, E, F: Fn(&str) -> Result<N, E>>(
    number: F,
    value: spec_fn(N) -> int,
    n: i128,
    result: Result<Reading<N>, E>,
)
    requires
        n >= 0,
        n as int / HOUR as int <= u64::MAX,
        forall|k: nat, a: Result<N, E>| #[trigger]
            reads(number, two_digits(k), a) ==> a is Ok && value(a->Ok_0) == k,
        parses_to(number, Span::Finite(n).parts().text(), result),
    ensures
        result is Ok,
        seconds_of(result->Ok_0, value) == n as int / SECOND as int,
{
    let hms = Span::Finite(n).parts();
    let parts = fields(hms.text());
    law_shown_time_splits(hms);
    law_parts_add_up(n);
    if result is Err {
        let e = result->Err_0;
        let i = choose|i: int| #[trigger] fails_at(number, parts, i, e);
        assert(reads(number, parts[i], Err(e)));
    } else {
        let terms = result->Ok_0->Sum_0@;
        lemma_short_sum(terms, value);
        assert(reads(number, parts[0], Ok(terms[0].value)));
        assert(reads(number, parts[1], Ok(terms[1].value)));
        if hms.hours > 0 {
            assert(reads(number, parts[2], Ok(terms[2].value)));
        }
    }
}

proof fn lemma_short_sum<N>(terms: Seq<Term<N>>, value: spec_fn(N) -> int)
    ensures
        terms.len() == 2 ==> sum_of(terms, value) == value(terms[0].value) * terms[0].unit + value(
            terms[1].value,
        ) * terms[1].unit,
        terms.len() == 3 ==> sum_of(terms, value) == value(terms[0].value) * terms[0].unit + value(
            terms[1].value,
        ) * terms[1].unit + value(terms[2].value) * terms[2].unit,
{
    reveal_with_fuel(sum_of, 4);
    if terms.len() == 2 {
        assert(terms.drop_last().last() == terms[0]);
    } else if terms.len() == 3 {
        assert(terms.drop_last().last() == terms[1]);
        assert(terms.drop_last().drop_last().last() == terms[0]);
    }
}

proof fn lemma_joined_prepend(first: Seq<char>, parts: Seq<Seq<char>>)
    requires
        parts.len() >= 1,
    ensures
        joined(seq![first] + parts) == first + seq![':'] + joined(parts),
    decreases parts.len(),
{
    let all = seq![first] + parts;
    reveal_with_fuel(joined, 2);
    if parts.len() == 1 {
        assert(all.drop_last() =~= seq![first]);
        assert(joined(all) =~= first + seq![':'] + joined(parts));
    } else {
        lemma_joined_prepend(first, parts.drop_last());
        assert(all.drop_last() =~= seq![first] + parts.drop_last());
        assert(joined(all) =~= first + seq![':'] + joined(parts));
    }
}

/// A zero field in front of a text is one field more, and the others stay.
pub proof fn law_leading_field(s: Seq<char>)
    ensures
        fields(seq!['0', ':'] + s) == seq![seq!['0']] + fields(s),
{
    let parts = fields(s);
    let all = seq![seq!['0']] + parts;
    law_fields_join(s);
    lemma_joined_prepend(seq!['0'], parts);
    assert(joined(all) =~= seq!['0', ':'] + s);
    assert forall|i: int| 0 <= i < all.len() implies !(#[trigger] all[i]).contains(':') by {
        if i > 0 {
            assert(all[i] == parts[i - 1]);
        }
    }
    law_join_splits(all);
}

proof fn lemma_sum_skips_zero<N>(
    plain: Seq<Term<N>>,
    padded: Seq<Term<N>>,
    value: spec_fn(N) -> int,
)
    requires
        padded.len() == plain.len() + 1,
        value(padded[0].value) == 0,
        forall|i: int|
            0 <= i < plain.len() ==> (#[trigger] plain[i]).unit == padded[i + 1].unit && value(
                plain[i].value,
            ) == value(padded[i + 1].value),
    ensures
        sum_of(padded, value) == sum_of(plain, value),
    decreases plain.len(),
{
    if plain.len() == 0 {
        reveal_with_fuel(sum_of, 2);
        assert(0 * padded[0].unit == 0);
    } else {
        let short = plain.drop_last();
        let longer = padded.drop_last();
        assert forall|i: int| 0 <= i < short.len() implies (#[trigger] short[i]).unit == longer[i
            + 1].unit && value(short[i].value) == value(longer[i + 1].value) by {
            assert(short[i] == plain[i]);
        }
        lemma_sum_skips_zero(short, longer, value);
        assert(plain.last() == plain[plain.len() - 1]);
    }
}

/// A leading zero field changes nothing: with `0:` in front, a text of one or two
/// fields is refused exactly when it is refused without, with the same error,
/// and otherwise stands for the same number of seconds. `number` is to give one
/// answer for each text, and to read `0` as zero.
pub proof fn law_leading_zero<N, E, F: Fn(&str) -> Result<N, E>>(
    number: F,
    value: spec_fn(N) -> int,
    s: Seq<char>,
    plain: Result<Reading<N>, E>,
    padded: Result<Reading<N>, E>,
)
    requires
        fields(s).len() <= 2,
        forall|text: Seq<char>, a: Result<N, E>, b: Result<N, E>| #[trigger]
            reads(number, text, a) && #[trigger] reads(number, text, b) ==> a == b,
        forall|a: Result<N, E>| #[trigger]
            reads(number, seq!['0'], a) ==> a is Ok && value(a->Ok_0) == 0,
        parses_to(number, s, plain),
        parses_to(number, seq!['0', ':'] + s, padded),
    ensures
        plain is Err <==> padded is Err,
        plain is Err ==> plain->Err_0 == padded->Err_0,
        plain is Ok ==> seconds_of(plain->Ok_0, value) == seconds_of(padded->Ok_0, value),
{
    let parts = fields(s);
    let all = fields(seq!['0', ':'] + s);
    law_leading_field(s);
    assert(all[0] == seq!['0']);
    assert forall|i: int| 0 <= i < parts.len() implies all[i + 1] == #[trigger] parts[i] by {}
    if plain is Err {
        let e = plain->Err_0;
        let i = choose|i: int| #[trigger] fails_at(number, parts, i, e);
        assert(reads(number, parts[i], Err(e)));
        assert(all[i + 1] == parts[i]);
        if padded is Ok {
            let terms = padded->Ok_0->Sum_0@;
            assert(reads(number, all[i + 1], Ok(terms[i + 1].value)));
        } else {
            let f = padded->Err_0;
            let j = choose|j: int| #[trigger] fails_at(number, all, j, f);
            assert(reads(number, all[j], Err(f)));
            assert(j > 0);
            assert(all[j] == parts[j - 1]);
            if j - 1 < i {
                assert(can_read(number, parts[j - 1]));
                let v = choose|v: N| reads(number, parts[j - 1], Ok(v));
                assert(reads(number, parts[j - 1], Ok(v)));
            } else if i < j - 1 {
                assert(can_read(number, all[i + 1]));
                let v = choose|v: N| reads(number, all[i + 1], Ok(v));
                assert(reads(number, all[i + 1], Ok(v)));
            }
        }
    } else {
        let terms = plain->Ok_0->Sum_0@;
        if padded is Err {
            let f = padded->Err_0;
            let j = choose|j: int| #[trigger] fails_at(number, all, j, f);
            assert(reads(number, all[j], Err(f)));
            assert(j > 0);
            assert(all[j] == parts[j - 1]);
            assert(reads(number, parts[j - 1], Ok(terms[j - 1].value)));
        } else {
            let more = padded->Ok_0->Sum_0@;
            assert(reads(number, all[0], Ok(more[0].value)));
            assert forall|i: int| 0 <= i < terms.len() implies (#[trigger] terms[i]).unit == more[i
                + 1].unit && value(terms[i].value) == value(more[i + 1].value) by {
                assert(reads(number, parts[i], Ok(terms[i].value)));
                assert(all[i + 1] == parts[i]);
                assert(reads(number, all[i + 1], Ok(more[i + 1].value)));
            }
            lemma_sum_skips_zero(terms, more, value);
        }
    }
}

/// A command-line argument is an option: it starts with a dash.
pub open spec fn is_option(arg: Seq<char>) -> bool {
    arg.len() > 0 && arg[0] == '-'
}

/// Argument `i` is the one that gives the duration: the first after the
/// program's name that is no option.
pub open spec fn gives_duration(args: Seq<String>, i: int) -> bool {
    &&& 1 <= i < args.len()
    &&& !is_option(args[i]@)
    &&& forall|j: int| 1 <= j < i ==> is_option((#[trigger] args[j])@)
}

/// No argument gives a duration: all after the program's name are options.
pub open spec fn gives_none(args: Seq<String>) -> bool {
    forall|j: int| 1 <= j < args.len() ==> is_option((#[trigger] args[j])@)
}

/// Finds the argument that gives the duration. The first argument is the
/// program's name.
pub fn duration_arg(args: &Vec<String>) -> (index: Option<usize>)
    ensures
        match index {
            Some(i) => gives_duration(args@, i as int),
            None => forall|j: int| 1 <= j < args@.len() ==> is_option((#[trigger] args@[j])@),
        },
        index is None ==> gives_none(args@),
{
    let mut i: usize = 1;
    while i < args.len()
        invariant
            1 <= i,
            forall|j: int| 1 <= j < i && j < args@.len() ==> is_option((#[trigger] args@[j])@),
        decreases args@.len() - i,
    {
        let arg: &str = args[i].as_str();
        let option: bool = arg.unicode_len() > 0 && arg.get_char(0) == '-';
        if !option {
            return Some(i);
        }
        i = i + 1;
    }
    None
}

/// Reads the duration from the command line: the default where no argument
/// gives one.
pub fn read_duration<N, E, F: Fn(&str) -> Result<N, E>>(
    args: &Vec<String>,
    number: &F,
) -> (result: Result<Reading<N>, E>)
    requires
        forall|text: &str| call_requires(*number, (text,)),
    ensures
        forall|i: int|
            #[trigger] gives_duration(args@, i) ==> parses_to(*number, args@[i]@, result),
        (forall|i: int| !gives_duration(args@, i)) ==> result == Ok::<Reading<N>, E>(
            Reading::Default,
        ),
{
    match duration_arg(args) {
        Some(i) => parse_hms(args[i].as_str(), number),
        None => Ok(Reading::Default),
    }
}

/// `number` reads the text as the number `v`, whatever else it may do.
pub open spec fn takes_for<N, E, F: Fn(&str) -> Result<N, E>>(
    number: F,
    value: spec_fn(N) -> int,
    field: Seq<char>,
    v: int,
) -> bool {
    forall|text: &str, a: Result<N, E>|
        text@ == field && #[trigger] call_ensures(number, (text,), a) ==> a is Ok && value(
            a->Ok_0,
        ) == v
}

/// `number` refuses the text with the error `e`, whatever else it may do.
pub open spec fn refuses<N, E, F: Fn(&str) -> Result<N, E>>(
    number: F,
    field: Seq<char>,
    e: E,
) -> bool {
    forall|text: &str, a: Result<N, E>|
        text@ == field && #[trigger] call_ensures(number, (text,), a) ==> a == Err::<N, E>(e)
}

/// A text that joins one to three parts is read part by part.
proof fn lemma_parts_read<N, E, F: Fn(&str) -> Result<N, E>>(
    number: F,
    value: spec_fn(N) -> int,
    parts: Seq<Seq<char>>,
    numbers: Seq<int>,
    result: Result<Reading<N>, E>,
)
    requires
        1 <= parts.len() <= 3,
        numbers.len() == parts.len(),
        forall|i: int| 0 <= i < parts.len() ==> !(#[trigger] parts[i]).contains(':'),
        forall|i: int|
            0 <= i < parts.len() ==> takes_for(number, value, #[trigger] parts[i], numbers[i]),
        parses_to(number, joined(parts), result),
    ensures
        result matches Ok(Reading::Sum(terms)) && terms@.len() == parts.len() && forall|i: int|
            0 <= i < parts.len() ==> (#[trigger] terms@[i]).unit == unit(parts.len() as int, i)
                && value(terms@[i].value) == numbers[i],
{
    law_join_splits(parts);
    if result is Err {
        let e = result->Err_0;
        let i = choose|i: int| #[trigger] fails_at(number, parts, i, e);
        assert(takes_for(number, value, parts[i], numbers[i]));
        assert(reads(number, parts[i], Err(e)));
    } else {
        let terms = result->Ok_0->Sum_0@;
        assert forall|i: int| 0 <= i < parts.len() implies value(
            (#[trigger] terms[i]).value,
        ) == numbers[i] by {
            assert(takes_for(number, value, parts[i], numbers[i]));
            assert(reads(number, parts[i], Ok(terms[i].value)));
        }
    }
}

proof fn lemma_joined_short(a: Seq<char>, b: Seq<char>, c: Seq<char>)
    ensures
        joined(seq![a]) == a,
        joined(seq![a, b]) == a + seq![':'] + b,
        joined(seq![a, b, c]) == a + seq![':'] + b + seq![':'] + c,
{
    reveal_with_fuel(joined, 4);
    assert(seq![a, b].drop_last() =~= seq![a]);
    assert(seq![a, b, c].drop_last() =~= seq![a, b]);
}

/// A text without a colon is read as seconds: one number, and each of it is one
/// second.
pub proof fn law_plain_seconds<N, E, F: Fn(&str) -> Result<N, E>>(
    number: F,
    value: spec_fn(N) -> int,
    s: &str,
    sec: int,
    result: Result<Reading<N>, E>,
)
    requires
        !s@.contains(':'),
        takes_for(number, value, s@, sec),
        call_ensures(parse_hms::<N, E, F>, (s, &number), result),
    ensures
        result matches Ok(Reading::Sum(terms)) && {
            &&& terms@.len() == 1
            &&& terms@[0].unit == 1 && value(terms@[0].value) == sec
        },
        seconds_of(result->Ok_0, value) == sec,
{
    let parts = seq![s@];
    lemma_joined_short(s@, s@, s@);
    lemma_parts_read(number, value, parts, seq![sec], result);
    reveal_with_fuel(sum_of, 2);
    let terms = result->Ok_0->Sum_0@;
    assert(terms.last() == terms[0]);
}

/// A text with one colon is read as minutes and seconds: two numbers, and each of
/// the first is sixty seconds.
pub proof fn law_minutes_and_seconds<N, E, F: Fn(&str) -> Result<N, E>>(
    number: F,
    value: spec_fn(N) -> int,
    s: &str,
    before: Seq<char>,
    after: Seq<char>,
    min: int,
    sec: int,
    result: Result<Reading<N>, E>,
)
    requires
        s@ == before + seq![':'] + after,
        !before.contains(':'),
        !after.contains(':'),
        takes_for(number, value, before, min),
        takes_for(number, value, after, sec),
        call_ensures(parse_hms::<N, E, F>, (s, &number), result),
    ensures
        result matches Ok(Reading::Sum(terms)) && {
            &&& terms@.len() == 2
            &&& terms@[0].unit == 60 && value(terms@[0].value) == min
            &&& terms@[1].unit == 1 && value(terms@[1].value) == sec
        },
        seconds_of(result->Ok_0, value) == 60 * min + sec,
{
    let parts = seq![before, after];
    lemma_joined_short(before, after, after);
    lemma_parts_read(number, value, parts, seq![min, sec], result);
    let terms = result->Ok_0->Sum_0@;
    lemma_short_sum(terms, value);
    assert(terms[0].unit == 60 && terms[1].unit == 1);
}

/// A text with two colons is read as hours, minutes and seconds: three numbers,
/// and each of the first is an hour of 3600 seconds, each of the second a minute
/// of sixty.
pub proof fn law_hours_minutes_and_seconds<N, E, F: Fn(&str) -> Result<N, E>>(
    number: F,
    value: spec_fn(N) -> int,
    s: &str,
    first: Seq<char>,
    second: Seq<char>,
    third: Seq<char>,
    h: int,
    min: int,
    sec: int,
    result: Result<Reading<N>, E>,
)
    requires
        s@ == first + seq![':'] + second + seq![':'] + third,
        !first.contains(':'),
        !second.contains(':'),
        !third.contains(':'),
        takes_for(number, value, first, h),
        takes_for(number, value, second, min),
        takes_for(number, value, third, sec),
        call_ensures(parse_hms::<N, E, F>, (s, &number), result),
    ensures
        result matches Ok(Reading::Sum(terms)) && {
            &&& terms@.len() == 3
            &&& terms@[0].unit == 3600 && value(terms@[0].value) == h
            &&& terms@[1].unit == 60 && value(terms@[1].value) == min
            &&& terms@[2].unit == 1 && value(terms@[2].value) == sec
        },
        seconds_of(result->Ok_0, value) == 3600 * h + 60 * min + sec,
{
    let parts = seq![first, second, third];
    lemma_joined_short(first, second, third);
    lemma_parts_read(number, value, parts, seq![h, min, sec], result);
    let terms = result->Ok_0->Sum_0@;
    lemma_short_sum(terms, value);
    assert(terms[0].unit == 3600 && terms[1].unit == 60 && terms[2].unit == 1);
}

proof fn lemma_colon_adds_fields(head: Seq<char>, tail: Seq<char>)
    ensures
        fields(head + seq![':'] + tail).len() == fields(head).len() + fields(tail).len(),
    decreases tail.len(),
{
    let all = head + seq![':'] + tail;
    if tail.len() == 0 {
        assert(all.drop_last() =~= head);
        assert(all.last() == ':');
    } else {
        lemma_colon_adds_fields(head, tail.drop_last());
        assert(all.drop_last() =~= head + seq![':'] + tail.drop_last());
        assert(all.last() == tail.last());
        lemma_fields_nonempty(all.drop_last());
        lemma_fields_nonempty(tail.drop_last());
    }
}

proof fn lemma_three_colons(a: Seq<char>, b: Seq<char>, c: Seq<char>, d: Seq<char>)
    ensures
        fields(a + seq![':'] + b + seq![':'] + c + seq![':'] + d).len() > 3,
{
    lemma_fields_nonempty(a);
    lemma_fields_nonempty(b);
    lemma_fields_nonempty(c);
    lemma_fields_nonempty(d);
    lemma_colon_adds_fields(a, b);
    lemma_colon_adds_fields(a + seq![':'] + b, c);
    lemma_colon_adds_fields(a + seq![':'] + b + seq![':'] + c, d);
}

/// A text with three colons or more is never refused: it stands for the default,
/// which is one minute, whatever is in it.
pub proof fn law_too_many_fields<N, E, F: Fn(&str) -> Result<N, E>>(
    number: F,
    value: spec_fn(N) -> int,
    s: &str,
    a: Seq<char>,
    b: Seq<char>,
    c: Seq<char>,
    d: Seq<char>,
    result: Result<Reading<N>, E>,
)
    requires
        s@ == a + seq![':'] + b + seq![':'] + c + seq![':'] + d,
        call_ensures(parse_hms::<N, E, F>, (s, &number), result),
    ensures
        result == Ok::<Reading<N>, E>(Reading::Default),
        DEFAULT_SECONDS == 60,
        seconds_of(result->Ok_0, value) == 60,
{
    lemma_three_colons(a, b, c, d);
}

proof fn lemma_refusal<N, E, F: Fn(&str) -> Result<N, E>>(
    number: F,
    value: spec_fn(N) -> int,
    s: Seq<char>,
    parts: Seq<Seq<char>>,
    numbers: Seq<int>,
    i: int,
    e: E,
    result: Result<Reading<N>, E>,
)
    requires
        parts.len() == 1 ==> s == parts[0],
        parts.len() == 2 ==> s == parts[0] + seq![':'] + parts[1],
        parts.len() == 3 ==> s == parts[0] + seq![':'] + parts[1] + seq![':'] + parts[2],
        0 <= i < parts.len() <= 3,
        forall|j: int| 0 <= j < parts.len() ==> !(#[trigger] parts[j]).contains(':'),
        forall|j: int| 0 <= j < i ==> takes_for(number, value, #[trigger] parts[j], numbers[j]),
        refuses(number, parts[i], e),
        parses_to(number, s, result),
    ensures
        result == Err::<Reading<N>, E>(e),
{
    if parts.len() == 1 {
        assert(parts =~= seq![parts[0]]);
        lemma_joined_short(parts[0], parts[0], parts[0]);
    } else if parts.len() == 2 {
        assert(parts =~= seq![parts[0], parts[1]]);
        lemma_joined_short(parts[0], parts[1], parts[1]);
    } else {
        assert(parts =~= seq![parts[0], parts[1], parts[2]]);
        lemma_joined_short(parts[0], parts[1], parts[2]);
    }
    law_join_splits(parts);
    if result is Ok {
        let terms = result->Ok_0->Sum_0@;
        assert(terms[i].unit == terms[i].unit);
        assert(reads(number, parts[i], Ok(terms[i].value)));
    } else {
        let f = result->Err_0;
        let k = choose|k: int| #[trigger] fails_at(number, parts, k, f);
        assert(reads(number, parts[k], Err(f)));
        if k < i {
            assert(takes_for(number, value, parts[k], numbers[k]));
        } else if i < k {
            assert(can_read(number, parts[i]));
            let v = choose|v: N| reads(number, parts[i], Ok(v));
            assert(reads(number, parts[i], Ok(v)));
        }
    }
}

/// Of the one to three parts of a text, the first that is no number is the error:
/// if `number` takes all before it and refuses it with `e`, then `e` is what the
/// reading gives.
pub proof fn law_first_refusal<N, E, F: Fn(&str) -> Result<N, E>>(
    number: F,
    value: spec_fn(N) -> int,
    s: &str,
    parts: Seq<Seq<char>>,
    numbers: Seq<int>,
    i: int,
    e: E,
    result: Result<Reading<N>, E>,
)
    requires
        parts.len() == 1 ==> s@ == parts[0],
        parts.len() == 2 ==> s@ == parts[0] + seq![':'] + parts[1],
        parts.len() == 3 ==> s@ == parts[0] + seq![':'] + parts[1] + seq![':'] + parts[2],
        0 <= i < parts.len() <= 3,
        forall|j: int| 0 <= j < parts.len() ==> !(#[trigger] parts[j]).contains(':'),
        forall|j: int| 0 <= j < i ==> takes_for(number, value, #[trigger] parts[j], numbers[j]),
        refuses(number, parts[i], e),
        call_ensures(parse_hms::<N, E, F>, (s, &number), result),
    ensures
        result == Err::<Reading<N>, E>(e),
{
    lemma_refusal(number, value, s@, parts, numbers, i, e, result);
}

/// The argument that `duration_arg` finds is the first one behind the program's
/// name that does not start with a dash, and it finds one if there is any.
pub proof fn law_duration_argument(args: Vec<String>, index: Option<usize>)
    requires
        call_ensures(duration_arg, (&args,), index),
    ensures
        index matches Some(i) ==> {
            &&& 1 <= i < args@.len()
            &&& args@[i as int]@.len() > 0 ==> args@[i as int]@[0] != '-'
            &&& forall|j: int|
                1 <= j < i ==> (#[trigger] args@[j])@.len() > 0 && args@[j]@[0] == '-'
        },
        index is None ==> forall|j: int|
            1 <= j < args@.len() ==> (#[trigger] args@[j])@.len() > 0 && args@[j]@[0] == '-',
{
    if index is None {
        assert forall|j: int| 1 <= j < args@.len() implies (#[trigger] args@[j])@.len() > 0
            && args@[j]@[0] == '-' by {
            assert(is_option(args@[j]@));
        }
    }
}

/// With no argument that gives a duration, the timer runs for the default of one
/// minute.
pub proof fn law_default_duration<N, E, F: Fn(&str) -> Result<N, E>>(
    number: F,
    value: spec_fn(N) -> int,
    args: Vec<String>,
    result: Result<Reading<N>, E>,
)
    requires
        forall|j: int|
            1 <= j < args@.len() ==> (#[trigger] args@[j])@.len() > 0 && args@[j]@[0] == '-',
        call_ensures(read_duration::<N, E, F>, (&args, &number), result),
    ensures
        result == Ok::<Reading<N>, E>(Reading::Default),
        seconds_of(result->Ok_0, value) == 60,
{
}

/// The first argument without a dash, behind those with one, gives the duration:
/// of its one to three parts between colons the last counts seconds, the one
/// before it minutes and the one before that hours.
pub proof fn law_duration_from_arguments<N, E, F: Fn(&str) -> Result<N, E>>(
    number: F,
    value: spec_fn(N) -> int,
    args: Vec<String>,
    i: int,
    parts: Seq<Seq<char>>,
    numbers: Seq<int>,
    result: Result<Reading<N>, E>,
)
    requires
        1 <= i < args@.len(),
        args@[i]@.len() > 0 ==> args@[i]@[0] != '-',
        forall|j: int| 1 <= j < i ==> (#[trigger] args@[j])@.len() > 0 && args@[j]@[0] == '-',
        1 <= parts.len() <= 3,
        numbers.len() == parts.len(),
        parts.len() == 1 ==> args@[i]@ == parts[0],
        parts.len() == 2 ==> args@[i]@ == parts[0] + seq![':'] + parts[1],
        parts.len() == 3 ==> args@[i]@ == parts[0] + seq![':'] + parts[1] + seq![':'] + parts[2],
        forall|j: int| 0 <= j < parts.len() ==> !(#[trigger] parts[j]).contains(':'),
        forall|j: int|
            0 <= j < parts.len() ==> takes_for(number, value, #[trigger] parts[j], numbers[j]),
        call_ensures(read_duration::<N, E, F>, (&args, &number), result),
    ensures
        result is Ok,
        parts.len() == 1 ==> seconds_of(result->Ok_0, value) == numbers[0],
        parts.len() == 2 ==> seconds_of(result->Ok_0, value) == 60 * numbers[0] + numbers[1],
        parts.len() == 3 ==> seconds_of(result->Ok_0, value) == 3600 * numbers[0] + 60 * numbers[1]
            + numbers[2],
{
    assert(gives_duration(args@, i));
    if parts.len() == 1 {
        assert(parts =~= seq![parts[0]]);
        lemma_joined_short(parts[0], parts[0], parts[0]);
    } else if parts.len() == 2 {
        assert(parts =~= seq![parts[0], parts[1]]);
        lemma_joined_short(parts[0], parts[1], parts[1]);
    } else {
        assert(parts =~= seq![parts[0], parts[1], parts[2]]);
        lemma_joined_short(parts[0], parts[1], parts[2]);
    }
    lemma_parts_read(number, value, parts, numbers, result);
    let terms = result->Ok_0->Sum_0@;
    assert(seconds_of(result->Ok_0, value) == sum_of(terms, value));
    if parts.len() == 1 {
        reveal_with_fuel(sum_of, 2);
        assert(terms.last() == terms[0]);
        assert(terms[0].unit == 1 && value(terms[0].value) == numbers[0]);
        assert(sum_of(terms, value) == value(terms[0].value) * 1);
    } else if parts.len() == 2 {
        lemma_short_sum(terms, value);
        assert(terms[0].unit == 60 && value(terms[0].value) == numbers[0]);
        assert(terms[1].unit == 1 && value(terms[1].value) == numbers[1]);
        assert(sum_of(terms, value) == value(terms[0].value) * 60 + value(terms[1].value) * 1);
    } else {
        lemma_short_sum(terms, value);
        assert(terms[0].unit == 3600 && value(terms[0].value) == numbers[0]);
        assert(terms[1].unit == 60 && value(terms[1].value) == numbers[1]);
        assert(terms[2].unit == 1 && value(terms[2].value) == numbers[2]);
        assert(sum_of(terms, value) == value(terms[0].value) * 3600 + value(terms[1].value) * 60
            + value(terms[2].value) * 1);
    }
}

/// If the first argument without a dash holds a part that is no number, and
/// `number` takes all parts before it and refuses it with `e`, then `e` is what
/// the reading gives.
pub proof fn law_refused_argument<N, E, F: Fn(&str) -> Result<N, E>>(
    number: F,
    value: spec_fn(N) -> int,
    args: Vec<String>,
    i: int,
    parts: Seq<Seq<char>>,
    numbers: Seq<int>,
    k: int,
    e: E,
    result: Result<Reading<N>, E>,
)
    requires
        1 <= i < args@.len(),
        args@[i]@.len() > 0 ==> args@[i]@[0] != '-',
        forall|j: int| 1 <= j < i ==> (#[trigger] args@[j])@.len() > 0 && args@[j]@[0] == '-',
        parts.len() == 1 ==> args@[i]@ == parts[0],
        parts.len() == 2 ==> args@[i]@ == parts[0] + seq![':'] + parts[1],
        parts.len() == 3 ==> args@[i]@ == parts[0] + seq![':'] + parts[1] + seq![':'] + parts[2],
        0 <= k < parts.len() <= 3,
        forall|j: int| 0 <= j < parts.len() ==> !(#[trigger] parts[j]).contains(':'),
        forall|j: int| 0 <= j < k ==> takes_for(number, value, #[trigger] parts[j], numbers[j]),
        refuses(number, parts[k], e),
        call_ensures(read_duration::<N, E, F>, (&args, &number), result),
    ensures
        result == Err::<Reading<N>, E>(e),
{
    assert(gives_duration(args@, i));
    lemma_refusal(number, value, args@[i]@, parts, numbers, k, e, result);
}

/// If the first argument without a dash has three colons or more, the timer runs
/// for the default of one minute.
pub proof fn law_argument_with_too_many_fields<N, E, F: Fn(&str) -> Result<N, E>>(
    number: F,
    value: spec_fn(N) -> int,
    args: Vec<String>,
    i: int,
    a: Seq<char>,
    b: Seq<char>,
    c: Seq<char>,
    d: Seq<char>,
    result: Result<Reading<N>, E>,
)
    requires
        1 <= i < args@.len(),
        args@[i]@.len() > 0 ==> args@[i]@[0] != '-',
        forall|j: int| 1 <= j < i ==> (#[trigger] args@[j])@.len() > 0 && args@[j]@[0] == '-',
        args@[i]@ == a + seq![':'] + b + seq![':'] + c + seq![':'] + d,
        call_ensures(read_duration::<N, E, F>, (&args, &number), result),
    ensures
        result == Ok::<Reading<N>, E>(Reading::Default),
        seconds_of(result->Ok_0, value) == 60,
{
    assert(gives_duration(args@, i));
    lemma_three_colons(a, b, c, d);
}

} // verus!
