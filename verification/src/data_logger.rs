//! Data logging structures and the basic preparation of the logged data.

use vstd::prelude::*;

pub use crate::dataset::{DataSet, OrderedDataSet};

verus! {

/// A mouse action, as recorded for the learning algorithms.
#[derive(Clone, Copy, Debug)]
pub struct MouseAction {
    /// Cursor position, in the pixels of the screen.
    pub location: (i32, i32),
    pub is_clicked: bool,
    /// Whether the fast or the slow movement mode is on.
    pub is_fast: bool,
    pub is_slow: bool,
    /// Whether the numpad drives the mouse rather than typing.
    pub is_rat_on: bool,
}

impl MouseAction {
    /// The action recorded when a bound key goes down: it is a click when the
    /// key is the click key.
    pub fn key_press(
        key_code: u64,
        click_key_code: u64,
        location: (i32, i32),
        is_fast: bool,
        is_slow: bool,
        is_rat_on: bool,
    ) -> (a: MouseAction)
        ensures
            a == (MouseAction {
                location,
                is_clicked: key_code == click_key_code,
                is_fast,
                is_slow,
                is_rat_on,
            }),
    {
        MouseAction { location, is_clicked: key_code == click_key_code, is_fast, is_slow, is_rat_on }
    }

    /// The action recorded when a bound key is released: never a click.
    pub fn key_release(location: (i32, i32), is_fast: bool, is_slow: bool, is_rat_on: bool) -> (a:
        MouseAction)
        ensures
            a == (MouseAction { location, is_clicked: false, is_fast, is_slow, is_rat_on }),
    {
        MouseAction { location, is_clicked: false, is_fast, is_slow, is_rat_on }
    }
}

/// The decimal digits of `n`, most significant first, as ASCII bytes.
pub open spec fn digits(n: nat) -> Seq<u8>
    decreases n,
{
    if n < 10 {
        seq![(48 + n) as u8]
    } else {
        digits(n / 10).push((48 + n % 10) as u8)
    }
}

/// `v` written in decimal as ASCII bytes, with a leading `-` when negative.
pub open spec fn decimal(v: int) -> Seq<u8> {
    if v < 0 {
        seq![45u8] + digits((-v) as nat)
    } else {
        digits(v as nat)
    }
}

/// A flag written as the digit of its numeric value: `1` or `0`.
pub open spec fn flag(b: bool) -> Seq<u8> {
    if b {
        seq![49u8]
    } else {
        seq![48u8]
    }
}

/// The line that the activity log holds for an action: the six fields
/// `x,y,clicked,fast,slow,rat` in decimal, then a space and a newline.
pub open spec fn record_line(a: MouseAction) -> Seq<u8> {
    decimal(a.location.0 as int) + seq![44u8] + decimal(a.location.1 as int) + seq![44u8] + flag(
        a.is_clicked,
    ) + seq![44u8] + flag(a.is_fast) + seq![44u8] + flag(a.is_slow) + seq![44u8] + flag(
        a.is_rat_on,
    ) + seq![32u8, 10u8]
}

fn push_digits(out: &mut Vec<u8>, n: u32)
    ensures
        final(out)@ == old(out)@ + digits(n as nat),
    decreases n,
{
    if n >= 10 {
        push_digits(out, n / 10);
    }
    out.push(48u8 + (n % 10) as u8);
}

fn push_decimal(out: &mut Vec<u8>, v: i32)
    ensures
        final(out)@ == old(out)@ + decimal(v as int),
{
    if v < 0 {
        out.push(45u8);
        let magnitude: u32 = (0i64 - v as i64) as u32;
        push_digits(out, magnitude);
    } else {
        push_digits(out, v as u32);
    }
}

fn push_flag(out: &mut Vec<u8>, b: bool)
    ensures
        final(out)@ == old(out)@ + flag(b),
{
    if b {
        out.push(49u8);
    } else {
        out.push(48u8);
    }
}

impl MouseAction {
    /// The line appended to the activity log for this action.
    pub fn to_record(&self) -> (line: Vec<u8>)
        ensures
            line@ == record_line(*self),
    {
        let mut line: Vec<u8> = Vec::new();
        push_decimal(&mut line, self.location.0);
        line.push(44u8);
        push_decimal(&mut line, self.location.1);
        line.push(44u8);
        push_flag(&mut line, self.is_clicked);
        line.push(44u8);
        push_flag(&mut line, self.is_fast);
        line.push(44u8);
        push_flag(&mut line, self.is_slow);
        line.push(44u8);
        push_flag(&mut line, self.is_rat_on);
        line.push(32u8);
        line.push(10u8);
        assert(line@ =~= record_line(*self));
        line
    }
}

/// The comma-separated fields of a line, as `str::split(",")` yields them:
/// a line without a comma is one field, an empty line one empty field.
pub open spec fn split_fields(s: Seq<u8>) -> Seq<Seq<u8>>
    decreases s.len(),
{
    if s.len() == 0 {
        seq![Seq::<u8>::empty()]
    } else {
        let r = split_fields(s.drop_last());
        if s.last() == 44u8 {
            r.push(Seq::<u8>::empty())
        } else {
            r.update(r.len() - 1, r.last().push(s.last()))
        }
    }
}

/// The number of fields of a log line that a reader takes.
pub const FIELD_COUNT: usize = 6;

proof fn lemma_split_nonempty(s: Seq<u8>)
    ensures
        split_fields(s).len() >= 1,
    decreases s.len(),
{
    if s.len() > 0 {
        lemma_split_nonempty(s.drop_last());
    }
}

fn first_fields(line: &[u8]) -> (fields: Vec<Vec<u8>>)
    requires
        split_fields(line@).len() >= FIELD_COUNT,
    ensures
        fields@.len() == FIELD_COUNT,
        forall|i: int| 0 <= i < FIELD_COUNT ==> (#[trigger] fields@[i])@ == split_fields(line@)[i],
{
    let mut fields: Vec<Vec<u8>> = Vec::new();
    let mut cur: Vec<u8> = Vec::new();
    let mut i: usize = 0;
    while i < line.len()
        invariant
            0 <= i <= line@.len(),
            split_fields(line@.take(i as int)) == fields@.map_values(|f: Vec<u8>| f@).push(cur@),
        decreases line@.len() - i,
    {
        let b = line[i];
        let ghost prefix = line@.take(i as int);
        assert(line@.take(i + 1).drop_last() =~= prefix);
        proof {
            lemma_split_nonempty(prefix);
        }
        if b == 44u8 {
            let mut done: Vec<u8> = Vec::new();
            std::mem::swap(&mut cur, &mut done);
            fields.push(done);
            assert(fields@.map_values(|f: Vec<u8>| f@).push(cur@) =~= split_fields(
                line@.take(i + 1),
            ));
        } else {
            cur.push(b);
            assert(fields@.map_values(|f: Vec<u8>| f@).push(cur@) =~= split_fields(
                line@.take(i + 1),
            ));
        }
        i = i + 1;
    }
    assert(line@.take(line@.len() as int) =~= line@);
    fields.push(cur);
    assert(fields@.map_values(|f: Vec<u8>| f@) =~= split_fields(line@));
    fields.truncate(FIELD_COUNT);
    assert forall|i: int| 0 <= i < FIELD_COUNT implies (#[trigger] fields@[i])@ == split_fields(
        line@,
    )[i] by {
        assert(fields@[i]@ == fields@.map_values(|f: Vec<u8>| f@)[i]);
    }
    fields
}

/// A field without the spaces that end it.
pub open spec fn trim_trailing_spaces(s: Seq<u8>) -> Seq<u8>
    decreases s.len(),
{
    if s.len() > 0 && s.last() == 32u8 {
        trim_trailing_spaces(s.drop_last())
    } else {
        s
    }
}

/// The fields of a log line as the reader uses them: comma-separated, each
/// without the spaces that end it.
pub open spec fn log_fields(line: Seq<u8>) -> Seq<Seq<u8>> {
    split_fields(line).map_values(|f: Seq<u8>| trim_trailing_spaces(f))
}

fn trim_spaces(field: Vec<u8>) -> (t: Vec<u8>)
    ensures
        t@ == trim_trailing_spaces(field@),
{
    let mut v = field;
    while v.len() > 0 && v[v.len() - 1] == 32u8
        invariant
            trim_trailing_spaces(v@) == trim_trailing_spaces(field@),
        decreases v@.len(),
    {
        v.pop();
    }
    v
}

/// The first six fields of a line of the activity log, as its reader takes
/// them: comma-separated, without the spaces that end them (the writer puts
/// one before the newline); there must be at least six.
pub fn record_fields(line: &[u8]) -> (fields: Vec<Vec<u8>>)
    requires
        split_fields(line@).len() >= FIELD_COUNT,
    ensures
        fields@.len() == FIELD_COUNT,
        forall|i: int| 0 <= i < FIELD_COUNT ==> (#[trigger] fields@[i])@ == log_fields(line@)[i],
{
    let mut raw = first_fields(line);
    let ghost raw_view = raw@;
    let mut fields: Vec<Vec<u8>> = Vec::new();
    let mut i: usize = 0;
    while i < FIELD_COUNT
        invariant
            0 <= i <= FIELD_COUNT,
            split_fields(line@).len() >= FIELD_COUNT,
            raw_view.len() == FIELD_COUNT,
            forall|j: int| 0 <= j < FIELD_COUNT ==> (#[trigger] raw_view[j])@ == split_fields(line@)[j],
            raw@ == raw_view.skip(i as int),
            fields@.len() == i,
            forall|j: int| 0 <= j < i ==> (#[trigger] fields@[j])@ == log_fields(line@)[j],
        decreases FIELD_COUNT - i,
    {
        let f = raw.remove(0);
        assert(f == raw_view[i as int]);
        assert(raw@ =~= raw_view.skip(i + 1));
        let t = trim_spaces(f);
        fields.push(t);
        i = i + 1;
    }
    fields
}

/// The number that a string of ASCII decimal digits, most significant first, writes.
pub open spec fn digits_value(s: Seq<u8>) -> int
    decreases s.len(),
{
    if s.len() == 0 {
        0
    } else {
        digits_value(s.drop_last()) * 10 + (s.last() - 48)
    }
}

/// The decimal rendering of a number reads back as that number: its bytes
/// are ASCII digits (after a `-` for a negative number), without leading
/// zeros, and their value is the number.
pub proof fn lemma_decimal_reads_back(v: int)
    ensures
        v >= 0 ==> digits_value(decimal(v)) == v,
        v < 0 ==> decimal(v)[0] == 45u8 && digits_value(decimal(v).drop_first()) == -v,
        forall|i: int|
            (if v < 0 {
                1int
            } else {
                0int
            }) <= i < decimal(v).len() ==> 48 <= #[trigger] decimal(v)[i] <= 57,
        decimal(v).len() > (if v < 0 {
            2int
        } else {
            1int
        }) ==> decimal(v)[if v < 0 {
            1int
        } else {
            0int
        }] != 48u8,
{
    let n: nat = if v < 0 {
        (-v) as nat
    } else {
        v as nat
    };
    lemma_digits_value(n);
    lemma_digits_comma_free(n);
    if v < 0 {
        assert(decimal(v).drop_first() =~= digits(n));
        assert forall|i: int| 1 <= i < decimal(v).len() implies 48 <= #[trigger] decimal(v)[i]
            <= 57 by {
            assert(decimal(v)[i] == digits(n)[i - 1]);
        }
    }
}

proof fn lemma_digits_value(n: nat)
    ensures
        digits_value(digits(n)) == n,
        digits(n).len() >= 1,
        digits(n).len() > 1 ==> digits(n)[0] != 48u8,
    decreases n,
{
    if n >= 10 {
        lemma_digits_value(n / 10);
        let d = digits(n / 10);
        assert(digits(n).drop_last() =~= d);
        assert(digits(n)[0] == d[0]);
        assert(digits(n).last() == (48 + n % 10) as u8);
        assert(((48 + n % 10) as u8) - 48 == n % 10);
        assert(n == (n / 10) * 10 + n % 10);
        assert(digits_value(digits(n)) == digits_value(d) * 10 + (digits(n).last() - 48));
        if d.len() == 1 {
            assert(n / 10 >= 1);
            assert(n / 10 < 10) by {
                if n / 10 >= 10 {
                    lemma_digits_value(n / 10 / 10);
                    assert(d.len() > 1);
                }
            }
            assert(d[0] == (48 + n / 10) as u8);
        }
    } else {
        assert(((48 + n) as u8) - 48 == n);
        assert(digits(n).drop_last() =~= Seq::<u8>::empty());
        assert(digits_value(Seq::<u8>::empty()) == 0);
        assert(digits_value(digits(n)) == digits_value(digits(n).drop_last()) * 10 + (
        digits(n).last() - 48));
    }
}

/// Whether `s` holds no comma.
pub open spec fn comma_free(s: Seq<u8>) -> bool {
    forall|i: int| 0 <= i < s.len() ==> s[i] != 44u8
}

proof fn lemma_split_comma_free(s: Seq<u8>)
    requires
        comma_free(s),
    ensures
        split_fields(s) == seq![s],
    decreases s.len(),
{
    if s.len() == 0 {
        assert(s =~= Seq::<u8>::empty());
    } else {
        lemma_split_comma_free(s.drop_last());
        assert(s.drop_last().push(s.last()) =~= s);
    }
}

proof fn lemma_split_concat(x: Seq<u8>, b: Seq<u8>)
    ensures
        split_fields(x + seq![44u8] + b) == split_fields(x) + split_fields(b),
    decreases b.len(),
{
    let whole = x + seq![44u8] + b;
    lemma_split_nonempty(x);
    if b.len() == 0 {
        assert(whole.drop_last() =~= x);
        assert(split_fields(whole) =~= split_fields(x) + split_fields(b));
    } else {
        lemma_split_concat(x, b.drop_last());
        lemma_split_nonempty(b.drop_last());
        assert(whole.drop_last() =~= x + seq![44u8] + b.drop_last());
        assert(split_fields(whole) =~= split_fields(x) + split_fields(b));
    }
}

proof fn lemma_digits_comma_free(n: nat)
    ensures
        comma_free(digits(n)),
        forall|i: int| 0 <= i < digits(n).len() ==> 48 <= #[trigger] digits(n)[i] <= 57,
    decreases n,
{
    if n >= 10 {
        lemma_digits_comma_free(n / 10);
    }
}

proof fn lemma_decimal_comma_free(v: int)
    ensures
        comma_free(decimal(v)),
{
    if v < 0 {
        lemma_digits_comma_free((-v) as nat);
        assert(forall|i: int|
            1 <= i < decimal(v).len() ==> decimal(v)[i] == digits((-v) as nat)[i - 1]);
    } else {
        lemma_digits_comma_free(v as nat);
    }
}

/// A line of the activity log, read back without its newline, gives the six
/// fields of the action it records, in order: the two coordinates in decimal
/// and the four flags as `1` or `0`; split at its commas alone, the last field
/// still holds the space that the writer puts before the newline.
pub proof fn lemma_record_fields(a: MouseAction)
    ensures
        log_fields(record_line(a).drop_last()) == seq![
            decimal(a.location.0 as int),
            decimal(a.location.1 as int),
            flag(a.is_clicked),
            flag(a.is_fast),
            flag(a.is_slow),
            flag(a.is_rat_on),
        ],
        split_fields(record_line(a).drop_last()) == seq![
            decimal(a.location.0 as int),
            decimal(a.location.1 as int),
            flag(a.is_clicked),
            flag(a.is_fast),
            flag(a.is_slow),
            flag(a.is_rat_on).push(32u8),
        ],
{
    lemma_record_split(a);
    lemma_decimal_untrimmed(a.location.0 as int);
    lemma_decimal_untrimmed(a.location.1 as int);
    lemma_flag_untrimmed(a.is_clicked);
    lemma_flag_untrimmed(a.is_fast);
    lemma_flag_untrimmed(a.is_slow);
    lemma_flag_untrimmed(a.is_rat_on);
    let last = flag(a.is_rat_on).push(32u8);
    assert(last.drop_last() =~= flag(a.is_rat_on));
    assert(trim_trailing_spaces(last) == trim_trailing_spaces(flag(a.is_rat_on)));
    assert(log_fields(record_line(a).drop_last()) =~= seq![
        decimal(a.location.0 as int),
        decimal(a.location.1 as int),
        flag(a.is_clicked),
        flag(a.is_fast),
        flag(a.is_slow),
        flag(a.is_rat_on),
    ]);
}

#[verifier::rlimit(40)]
proof fn lemma_record_split(a: MouseAction)
    ensures
        split_fields(record_line(a).drop_last()) == seq![
            decimal(a.location.0 as int),
            decimal(a.location.1 as int),
            flag(a.is_clicked),
            flag(a.is_fast),
            flag(a.is_slow),
            flag(a.is_rat_on).push(32u8),
        ],
{
    let d1 = decimal(a.location.0 as int);
    let d2 = decimal(a.location.1 as int);
    let f1 = flag(a.is_clicked);
    let f2 = flag(a.is_fast);
    let f3 = flag(a.is_slow);
    let f4 = flag(a.is_rat_on).push(32u8);
    let c = seq![44u8];
    lemma_decimal_comma_free(a.location.0 as int);
    lemma_decimal_comma_free(a.location.1 as int);
    assert(comma_free(f4));
    lemma_split_comma_free(d1);
    lemma_split_comma_free(d2);
    lemma_split_comma_free(f1);
    lemma_split_comma_free(f2);
    lemma_split_comma_free(f3);
    lemma_split_comma_free(f4);
    let t5 = f3 + c + f4;
    let t4 = f2 + c + t5;
    let t3 = f1 + c + t4;
    let t2 = d2 + c + t3;
    let t1 = d1 + c + t2;
    assert(record_line(a).drop_last() =~= t1);
    lemma_split_concat(f3, f4);
    lemma_split_concat(f2, t5);
    lemma_split_concat(f1, t4);
    lemma_split_concat(d2, t3);
    lemma_split_concat(d1, t2);
    assert(split_fields(t1) =~= seq![d1, d2, f1, f2, f3, f4]);
}

proof fn lemma_flag_untrimmed(b: bool)
    ensures
        trim_trailing_spaces(flag(b)) == flag(b),
{
}

proof fn lemma_decimal_untrimmed(v: int)
    ensures
        trim_trailing_spaces(decimal(v)) == decimal(v),
{
    let n: nat = if v < 0 {
        (-v) as nat
    } else {
        v as nat
    };
    lemma_digits_comma_free(n);
    let d = digits(n);
    assert(d.len() >= 1);
    assert(48 <= d[d.len() - 1] <= 57);
    if v < 0 {
        assert(decimal(v).last() == d.last());
    }
}

/// Reads a stream of records, each an item and whether it was a click: the
/// items before each click, with the click's own item as their label, and the
/// items after the last click, still waiting for one.
pub open spec fn scan_clicks<T>(s: Seq<(T, bool)>) -> (Seq<(Seq<T>, T)>, Seq<T>)
    decreases s.len(),
{
    if s.len() == 0 {
        (Seq::empty(), Seq::empty())
    } else {
        let (groups, pending) = scan_clicks(s.drop_last());
        let (item, clicked) = s.last();
        if clicked {
            (groups.push((pending, item)), Seq::empty())
        } else {
            (groups, pending.push(item))
        }
    }
}

/// The sequences and labels of a vector of entries, seen through their views.
pub open spec fn entry_views<T>(g: Seq<(Vec<T>, T)>) -> Seq<(Seq<T>, T)> {
    g.map_values(|e: (Vec<T>, T)| (e.0@, e.1))
}

/// Gets clicks as labels and inputs: each click closes a sequence of the
/// non-click items that came before it (since the previous click), labelled
/// with the click's own item; the records must not end with a click.
pub fn group_by_clicks<T>(records: Vec<(T, bool)>) -> (groups: Vec<(Vec<T>, T)>)
    requires
        records@.len() > 0,
        !records@.last().1,
    ensures
        entry_views(groups@) == scan_clicks(records@).0,
{
    let ghost all = records@;
    let mut groups: Vec<(Vec<T>, T)> = Vec::new();
    let mut data: Vec<T> = Vec::new();
    for record in it: records.into_iter()
        invariant
            it.seq() == all,
            entry_views(groups@) == scan_clicks(all.take(it.index() as int)).0,
            data@ == scan_clicks(all.take(it.index() as int)).1,
    {
        let ghost prefix = all.take(it.index() as int);
        assert(all.take(it.index() + 1).drop_last() =~= prefix);
        let (item, clicked) = record;
        if clicked {
            let mut inputs: Vec<T> = Vec::new();
            std::mem::swap(&mut inputs, &mut data);
            groups.push((inputs, item));
            assert(entry_views(groups@) =~= scan_clicks(all.take(it.index() + 1)).0);
        } else {
            data.push(item);
            assert(entry_views(groups@) =~= scan_clicks(all.take(it.index() + 1)).0);
        }
    }
    assert(all.take(all.len() as int) =~= all);
    groups
}

/// The items of the groups, each sequence followed by its label, in order.
pub open spec fn joined<T>(g: Seq<(Seq<T>, T)>) -> Seq<T>
    decreases g.len(),
{
    if g.len() == 0 {
        Seq::empty()
    } else {
        joined(g.drop_last()) + g.last().0.push(g.last().1)
    }
}

/// The number of records that are clicks.
pub open spec fn click_count<T>(s: Seq<(T, bool)>) -> nat
    decreases s.len(),
{
    if s.len() == 0 {
        0
    } else {
        click_count(s.drop_last()) + if s.last().1 {
            1nat
        } else {
            0nat
        }
    }
}

/// Grouping by clicks loses, adds and reorders no item: the groups, each
/// sequence followed by its label, then the items still waiting, are the items
/// of the records in their order; there is one group per click; and the items
/// still waiting are exactly the records after the last click, none a click.
pub proof fn lemma_clicks_keep_items<T>(s: Seq<(T, bool)>)
    ensures
        joined(scan_clicks(s).0) + scan_clicks(s).1 == s.map_values(|r: (T, bool)| r.0),
        scan_clicks(s).0.len() == click_count(s),
        s.len() > 0 ==> (scan_clicks(s).1.len() > 0 <==> !s.last().1),
    decreases s.len(),
{
    if s.len() > 0 {
        let t = s.drop_last();
        lemma_clicks_keep_items(t);
        let (g, p) = scan_clicks(t);
        assert(s.map_values(|r: (T, bool)| r.0) =~= t.map_values(|r: (T, bool)| r.0).push(
            s.last().0,
        ));
        if s.last().1 {
            assert(g.push((p, s.last().0)).drop_last() =~= g);
            assert(joined(scan_clicks(s).0) + scan_clicks(s).1 =~= joined(g) + p.push(s.last().0));
        } else {
            assert(joined(scan_clicks(s).0) + scan_clicks(s).1 =~= joined(g) + p.push(s.last().0));
        }
    } else {
        assert(joined(scan_clicks(s).0) + scan_clicks(s).1 =~= s.map_values(|r: (T, bool)| r.0));
    }
}

} // verus!
