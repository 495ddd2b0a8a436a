//! The invoke label that ties a dispatched script context to its staged value.
//!
//! A context built for dispatch carries the label `invoke:<id>|<actor>`, where `<id>` is the
//! decimal invoke id under which the value was staged and `<actor>` is the serialized actor
//! JSON. Recovery reads the id back out of the label.
use vstd::prelude::*;

verus! {

/// The fixed start of every invoke label.
pub open spec fn invoke_prefix() -> Seq<char> {
    seq!['i', 'n', 'v', 'o', 'k', 'e', ':']
}

/// The separator between the invoke id and the actor text.
pub open spec fn field_separator() -> char {
    '|'
}

/// ASCII decimal digit.
pub open spec fn is_decimal_digit(c: char) -> bool {
    '0' <= c && c <= '9'
}

/// Value of an ASCII decimal digit.
pub open spec fn digit_value(c: char) -> nat {
    (c as int - '0' as int) as nat
}

/// Every character of `s` is an ASCII decimal digit.
pub open spec fn all_decimal_digits(s: Seq<char>) -> bool {
    forall|i: int| 0 <= i < s.len() ==> is_decimal_digit(#[trigger] s[i])
}

/// Value of a string of decimal digits, most significant first.
pub open spec fn digits_value(s: Seq<char>) -> nat
    decreases s.len(),
{
    if s.len() == 0 {
        0
    } else {
        digits_value(s.drop_last()) * 10 + digit_value(s.last())
    }
}

/// What `str::parse::<u64>` accepts: an optional `+` followed by one or more ASCII digits
/// whose value fits in a `u64`.
pub open spec fn parse_u64(s: Seq<char>) -> Option<u64> {
    let digits = if s.len() > 0 && s[0] == '+' {
        s.drop_first()
    } else {
        s
    };
    if digits.len() > 0 && all_decimal_digits(digits) && digits_value(digits) <= u64::MAX {
        Some(digits_value(digits) as u64)
    } else {
        None
    }
}

/// The part of `s` before its first separator, or all of `s` when it has none.
pub open spec fn id_field(s: Seq<char>) -> Seq<char>
    decreases s.len(),
{
    if s.len() == 0 {
        s
    } else if s[0] == field_separator() {
        Seq::empty()
    } else {
        seq![s[0]] + id_field(s.drop_first())
    }
}

/// The invoke id a label names: `Some` when the label starts with `invoke:` and the text
/// up to the first `|` (or the end) parses as a `u64`.
pub open spec fn invoke_id_of(label: Seq<char>) -> Option<u64> {
    if label.len() >= invoke_prefix().len() && label.take(invoke_prefix().len() as int)
        == invoke_prefix() {
        parse_u64(id_field(label.skip(invoke_prefix().len() as int)))
    } else {
        None
    }
}

/// The ASCII character of a decimal digit value.
pub open spec fn decimal_digit(d: nat) -> char
    recommends
        d < 10,
{
    seq!['0', '1', '2', '3', '4', '5', '6', '7', '8', '9'][d as int]
}

/// Canonical decimal representation of `n`: no sign, no leading zeros.
pub open spec fn decimal(n: nat) -> Seq<char>
    decreases n,
{
    if n < 10 {
        seq![decimal_digit(n)]
    } else {
        decimal(n / 10).push(decimal_digit(n % 10))
    }
}

/// The label of the context dispatched under `invoke_id` for an actor whose text is `actor`.
pub open spec fn invoke_label_of(invoke_id: u64, actor: Seq<char>) -> Seq<char> {
    invoke_prefix() + decimal(invoke_id as nat) + seq![field_separator()] + actor
}

proof fn lemma_decimal_digit(d: nat)
    requires
        d < 10,
    ensures
        is_decimal_digit(decimal_digit(d)),
        digit_value(decimal_digit(d)) == d,
        decimal_digit(d) != field_separator(),
        decimal_digit(d) != '+',
{
}

/// `decimal(n)` is a non-empty string of digits whose value is `n`.
pub proof fn lemma_decimal(n: nat)
    ensures
        decimal(n).len() > 0,
        all_decimal_digits(decimal(n)),
        digits_value(decimal(n)) == n,
    decreases n,
{
    if n < 10 {
        lemma_decimal_digit(n);
        assert(decimal(n).drop_last() =~= Seq::<char>::empty());
        assert(digits_value(Seq::<char>::empty()) == 0);
    } else {
        lemma_decimal(n / 10);
        lemma_decimal_digit(n % 10);
        assert(decimal(n).drop_last() =~= decimal(n / 10));
        assert(decimal(n).last() == decimal_digit(n % 10));
        assert(digits_value(decimal(n)) == (n / 10) * 10 + n % 10);
    }
}

proof fn lemma_id_field_stops_at_separator(s: Seq<char>, t: Seq<char>)
    requires
        forall|i: int| 0 <= i < s.len() ==> #[trigger] s[i] != field_separator(),
    ensures
        id_field(s + seq![field_separator()] + t) == s,
    decreases s.len(),
{
    let whole = s + seq![field_separator()] + t;
    if s.len() == 0 {
        assert(whole[0] == field_separator());
    } else {
        lemma_id_field_stops_at_separator(s.drop_first(), t);
        assert(whole.drop_first() =~= s.drop_first() + seq![field_separator()] + t);
        assert(seq![s[0]] + s.drop_first() =~= s);
    }
}

/// The layout of every dispatch label: `invoke:`, then the id's decimal digits, then `|`,
/// then the whole actor text. The actor text starts right after the first `|` and runs to
/// the end, and the text between `invoke:` and that `|` parses back to the id.
pub proof fn lemma_invoke_label_layout(invoke_id: u64, actor: Seq<char>)
    ensures
        ({
            let label = invoke_label_of(invoke_id, actor);
            let digits_end = label.len() - actor.len() - 1;
            &&& label.take(7) == seq!['i', 'n', 'v', 'o', 'k', 'e', ':']
            &&& label.len() > actor.len() + 8
            &&& label.skip(label.len() - actor.len()) == actor
            &&& label[digits_end] == '|'
            &&& forall|i: int| 0 <= i < digits_end ==> #[trigger] label[i] != '|'
            &&& parse_u64(label.subrange(7, digits_end)) == Some(invoke_id)
        }),
{
    let label = invoke_label_of(invoke_id, actor);
    let digits = decimal(invoke_id as nat);
    lemma_decimal(invoke_id as nat);
    assert(label =~= invoke_prefix() + digits + seq![field_separator()] + actor);
    assert(label.take(7) =~= seq!['i', 'n', 'v', 'o', 'k', 'e', ':']);
    assert(label.skip(label.len() - actor.len()) =~= actor);
    assert(label.subrange(7, label.len() - actor.len() - 1) =~= digits);
    assert forall|i: int| 0 <= i < label.len() - actor.len() - 1 implies #[trigger] label[i]
        != '|' by {
        if i >= 7 {
            assert(label[i] == digits[i - 7]);
            assert(is_decimal_digit(digits[i - 7]));
        }
    }
    assert(is_decimal_digit(digits[0]));
}

/// Different dispatches get different labels: a label determines both its invoke id and its
/// whole actor text.
pub proof fn lemma_invoke_label_injective(
    invoke_id1: u64,
    actor1: Seq<char>,
    invoke_id2: u64,
    actor2: Seq<char>,
)
    requires
        invoke_label_of(invoke_id1, actor1) == invoke_label_of(invoke_id2, actor2),
    ensures
        invoke_id1 == invoke_id2,
        actor1 == actor2,
{
    let label = invoke_label_of(invoke_id1, actor1);
    lemma_invoke_label_layout(invoke_id1, actor1);
    lemma_invoke_label_layout(invoke_id2, actor2);
    let end1 = label.len() - actor1.len() - 1;
    let end2 = label.len() - actor2.len() - 1;
    if end1 < end2 {
        assert(label[end1] == '|');
    } else if end2 < end1 {
        assert(label[end2] == '|');
    }
    assert(end1 == end2);
    assert(actor1 =~= label.skip(label.len() - actor1.len()));
    assert(actor2 =~= label.skip(label.len() - actor2.len()));
}

/// A label built for an invoke id names that id, whatever the actor text holds.
pub proof fn lemma_invoke_label_roundtrip(invoke_id: u64, actor: Seq<char>)
    ensures
        invoke_id_of(invoke_label_of(invoke_id, actor)) == Some(invoke_id),
{
    let label = invoke_label_of(invoke_id, actor);
    let digits = decimal(invoke_id as nat);
    lemma_decimal(invoke_id as nat);
    assert(label.take(7) =~= invoke_prefix());
    assert(label.skip(7) =~= digits + seq![field_separator()] + actor);
    assert forall|i: int| 0 <= i < digits.len() implies #[trigger] digits[i]
        != field_separator() by {
        assert(is_decimal_digit(digits[i]));
    }
    lemma_id_field_stops_at_separator(digits, actor);
    assert(is_decimal_digit(digits[0]));
}

/// The characters of `s`, in order.
fn chars_of(s: &str) -> (chars: Vec<char>)
    ensures
        chars@ == s@,
{
    let mut chars: Vec<char> = Vec::new();
    for c in it: s.chars()
        invariant
            chars@ == it.seq().take(it.index() as int),
    {
        chars.push(c);
    }
    chars
}

proof fn lemma_id_field_is_prefix(s: Seq<char>, j: int)
    requires
        0 <= j <= s.len(),
        forall|k: int| 0 <= k < j ==> #[trigger] s[k] != field_separator(),
        j == s.len() || s[j] == field_separator(),
    ensures
        id_field(s) == s.take(j),
    decreases j,
{
    if s.len() == 0 {
        assert(s.take(j) =~= s);
    } else if j == 0 {
        assert(s.take(0) =~= Seq::<char>::empty());
    } else {
        lemma_id_field_is_prefix(s.drop_first(), j - 1);
        assert(seq![s[0]] + s.drop_first().take(j - 1) =~= s.take(j));
    }
}

proof fn lemma_digits_value_grows(s: Seq<char>, k: int)
    requires
        0 <= k <= s.len(),
    ensures
        digits_value(s.take(k)) <= digits_value(s),
    decreases s.len(),
{
    if k < s.len() {
        lemma_digits_value_grows(s.drop_last(), k);
        assert(s.drop_last().take(k) =~= s.take(k));
    } else {
        assert(s.take(k) =~= s);
    }
}

/// Parses `chars[start..end]` as `str::parse::<u64>` does.
fn parse_u64_chars(chars: &Vec<char>, start: usize, end: usize) -> (r: Option<u64>)
    requires
        start <= end <= chars.len(),
    ensures
        r == parse_u64(chars@.subrange(start as int, end as int)),
{
    let ghost field = chars@.subrange(start as int, end as int);
    let mut digits_start = start;
    if start < end && chars[start] == '+' {
        digits_start = start + 1;
    }
    let ghost digits = chars@.subrange(digits_start as int, end as int);
    assert(digits == (if field.len() > 0 && field[0] == '+' {
        field.drop_first()
    } else {
        field
    }));
    if digits_start == end {
        return None;
    }
    let mut acc: u64 = 0;
    let mut i = digits_start;
    assert(chars@.subrange(digits_start as int, i as int) =~= Seq::<char>::empty());
    while i < end
        invariant
            start <= digits_start <= i <= end <= chars.len(),
            digits == chars@.subrange(digits_start as int, end as int),
            digits == (if field.len() > 0 && field[0] == '+' {
                field.drop_first()
            } else {
                field
            }),
            field == chars@.subrange(start as int, end as int),
            digits.len() > 0,
            acc == digits_value(chars@.subrange(digits_start as int, i as int)),
            all_decimal_digits(chars@.subrange(digits_start as int, i as int)),
        decreases end - i,
    {
        let c = chars[i];
        let ghost seen = chars@.subrange(digits_start as int, i as int + 1);
        assert(seen.drop_last() =~= chars@.subrange(digits_start as int, i as int));
        assert(seen.last() == c);
        assert(digits.take(i - digits_start + 1) =~= seen);
        if !('0' <= c && c <= '9') {
            assert(digits[i - digits_start] == c);
            return None;
        }
        let d: u64 = (c as u32 - 48) as u64;
        assert(d == digit_value(c));
        proof {
            lemma_digits_value_grows(digits, i - digits_start + 1);
        }
        match acc.checked_mul(10) {
            None => {
                return None;
            },
            Some(m) => match m.checked_add(d) {
                None => {
                    return None;
                },
                Some(next) => {
                    acc = next;
                },
            },
        }
        i = i + 1;
    }
    assert(chars@.subrange(digits_start as int, i as int) =~= digits);
    Some(acc)
}

/// The invoke id that `label` names, if it names one: the label must start with `invoke:`,
/// and the text from there up to the first `|` (or the end) must parse as a `u64`.
pub fn parse_invoke_id(label: &str) -> (id: Option<u64>)
    ensures
        id == invoke_id_of(label@),
{
    let chars = chars_of(label);
    let n = chars.len();
    let prefix: [char; 7] = ['i', 'n', 'v', 'o', 'k', 'e', ':'];
    assert(prefix@ =~= invoke_prefix());
    if n < 7 {
        return None;
    }
    let mut i: usize = 0;
    while i < 7
        invariant
            i <= 7 <= n,
            n == chars@.len(),
            chars@ == label@,
            prefix@ == invoke_prefix(),
            forall|k: int| 0 <= k < i ==> chars@[k] == invoke_prefix()[k],
        decreases 7 - i,
    {
        if chars[i] != prefix[i] {
            assert(label@.take(7)[i as int] != invoke_prefix()[i as int]);
            return None;
        }
        i = i + 1;
    }
    assert(label@.take(7) =~= invoke_prefix());
    let mut end: usize = 7;
    while end < n && chars[end] != '|'
        invariant
            7 <= end <= n,
            n == chars@.len(),
            forall|k: int| 7 <= k < end ==> #[trigger] chars@[k] != field_separator(),
        decreases n - end,
    {
        end = end + 1;
    }
    proof {
        let rest = label@.skip(7);
        assert forall|k: int| 0 <= k < end - 7 implies #[trigger] rest[k] != field_separator() by {
            assert(chars@[k + 7] != field_separator());
        }
        lemma_id_field_is_prefix(rest, end - 7);
        assert(rest.take(end - 7) =~= chars@.subrange(7, end as int));
    }
    parse_u64_chars(&chars, 7, end)
}

/// The one-character text of a decimal digit.
fn digit_text(d: u64) -> (text: &'static str)
    requires
        d < 10,
    ensures
        text@ == seq![decimal_digit(d as nat)],
{
    proof {
        reveal_strlit("0");
        reveal_strlit("1");
        reveal_strlit("2");
        reveal_strlit("3");
        reveal_strlit("4");
        reveal_strlit("5");
        reveal_strlit("6");
        reveal_strlit("7");
        reveal_strlit("8");
        reveal_strlit("9");
    }
    match d {
        0 => "0",
        1 => "1",
        2 => "2",
        3 => "3",
        4 => "4",
        5 => "5",
        6 => "6",
        7 => "7",
        8 => "8",
        _ => "9",
    }
}

/// Appends the decimal representation of `n` to `text`.
fn append_decimal(text: &mut String, n: u64)
    ensures
        final(text)@ == old(text)@ + decimal(n as nat),
    decreases n,
{
    if n >= 10 {
        append_decimal(text, n / 10);
    }
    text.append(digit_text(n % 10));
    proof {
        if n < 10 {
            assert(old(text)@ + decimal(n as nat) =~= old(text)@ + seq![decimal_digit(n as nat)]);
        } else {
            assert(old(text)@ + decimal(n as nat) =~= old(text)@ + decimal((n / 10) as nat) + seq![
                decimal_digit((n % 10) as nat),
            ]);
        }
    }
}

/// The label for the context dispatched under `invoke_id`: `invoke:<id>|<actor_label>`.
pub fn invoke_label(invoke_id: u64, actor_label: &str) -> (label: String)
    ensures
        label@ == invoke_label_of(invoke_id, actor_label@),
        invoke_id_of(label@) == Some(invoke_id),
        label@.take(7) == seq!['i', 'n', 'v', 'o', 'k', 'e', ':'],
        label@.len() > actor_label@.len() + 8,
        label@.skip(label@.len() - actor_label@.len()) == actor_label@,
        label@[label@.len() - actor_label@.len() - 1] == '|',
        forall|i: int|
            0 <= i < label@.len() - actor_label@.len() - 1 ==> #[trigger] label@[i] != '|',
{
    let mut label = String::from_str("invoke:");
    proof {
        reveal_strlit("invoke:");
        reveal_strlit("|");
        assert("invoke:"@ =~= invoke_prefix());
    }
    append_decimal(&mut label, invoke_id);
    label.append("|");
    label.append(actor_label);
    proof {
        assert(label@ =~= invoke_label_of(invoke_id, actor_label@));
        lemma_invoke_label_roundtrip(invoke_id, actor_label@);
        lemma_invoke_label_layout(invoke_id, actor_label@);
    }
    label
}

} // verus!
