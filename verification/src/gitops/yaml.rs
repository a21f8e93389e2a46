//! Repair of YAML values before they are read as Kubernetes objects: strings
//! that spell octal numbers (file modes such as `"0644"` or `"0o644"`)
//! become numbers.

use vstd::prelude::*;
use crate::text::all_digits;

verus! {

#[verifier::external_type_specification]
#[verifier::external_body]
pub struct ExYamlNumber(serde_yaml_ng::Number);

/// A YAML number: a non-negative or a negative integer, or a floating-point
/// number, which is carried through unread.
pub enum YamlNumber {
    PosInt(u64),
    NegInt(i64),
    Float(serde_yaml_ng::Number),
}

/// A YAML document node.
pub enum YamlValue {
    Null,
    Bool(bool),
    Number(YamlNumber),
    String(String),
    Sequence(Vec<YamlValue>),
    Mapping(Vec<(YamlValue, YamlValue)>),
    Tagged(String, Box<YamlValue>),
}

/// An ASCII octal digit.
pub open spec fn is_octal_digit(c: char) -> bool {
    '0' <= c && c <= '7'
}

/// The number written by the octal digits `s` (most significant first).
pub open spec fn octal_value(s: Seq<char>) -> nat
    decreases s.len(),
{
    if s.len() == 0 {
        0
    } else {
        octal_value(s.drop_last()) * 8 + (s.last() as int - '0' as int) as nat
    }
}

/// Every character of `d` is an octal digit.
pub open spec fn all_octal(d: Seq<char>) -> bool {
    forall|i: int| 0 <= i < d.len() ==> is_octal_digit(#[trigger] d[i])
}

/// `s` without its leading sign, if it has one.
pub open spec fn unsigned_part(s: Seq<char>) -> Seq<char> {
    if s.len() > 0 && (s[0] == '+' || s[0] == '-') {
        s.drop_first()
    } else {
        s
    }
}

/// What `i64::from_str_radix(s, 8)` gives: an optional sign, at least one
/// octal digit, and a value within the range of `i64`.
pub open spec fn parse_i64_octal(s: Seq<char>) -> Option<int> {
    let d = unsigned_part(s);
    let v = octal_value(d);
    if d.len() == 0 || !all_octal(d) {
        None
    } else if s[0] == '-' {
        if v <= 0x8000_0000_0000_0000 { Some(-v) } else { None }
    } else {
        if v <= 0x7fff_ffff_ffff_ffff { Some(v as int) } else { None }
    }
}

/// The number a YAML string stands for when it spells an octal number:
/// `"0o"` followed by an octal integer, or `"0"` followed by decimal digits
/// that happen to be octal; `None` for every other string.
pub open spec fn octal_string_value(s: Seq<char>) -> Option<int> {
    if s.len() >= 2 && s[0] == '0' && s[1] == 'o' && parse_i64_octal(s.skip(2)) is Some {
        parse_i64_octal(s.skip(2))
    } else if s.len() >= 2 && s[0] == '0' && all_digits(s.skip(1)) && parse_i64_octal(s) is Some {
        parse_i64_octal(s)
    } else {
        None
    }
}

/// The YAML number of an integer (`serde_yaml_ng::Number::from` an `i64`).
pub open spec fn int_number(v: int) -> YamlNumber {
    if v < 0 {
        YamlNumber::NegInt(v as i64)
    } else {
        YamlNumber::PosInt(v as u64)
    }
}

/// What a YAML node holds: its strings as character sequences and its
/// children as sequences of views.
pub enum YamlView {
    Null,
    Bool(bool),
    Number(YamlNumber),
    String(Seq<char>),
    Sequence(Seq<YamlView>),
    Mapping(Seq<(YamlView, YamlView)>),
    Tagged(Seq<char>, Box<YamlView>),
}

/// The view of a YAML node.
pub open spec fn yaml_view(v: YamlValue) -> YamlView
    decreases v,
{
    match v {
        YamlValue::Null => YamlView::Null,
        YamlValue::Bool(b) => YamlView::Bool(b),
        YamlValue::Number(n) => YamlView::Number(n),
        YamlValue::String(s) => YamlView::String(s@),
        YamlValue::Sequence(xs) => YamlView::Sequence(seq_views(xs@)),
        YamlValue::Mapping(xs) => YamlView::Mapping(pair_views(xs@)),
        YamlValue::Tagged(t, x) => YamlView::Tagged(t@, Box::new(yaml_view(*x))),
    }
}

/// The views of a sequence of YAML nodes.
pub open spec fn seq_views(xs: Seq<YamlValue>) -> Seq<YamlView>
    decreases xs,
{
    if xs.len() == 0 {
        Seq::empty()
    } else {
        proof {
            assert(decreases_to!(xs => xs.subrange(0, xs.len() - 1)));
        }
        seq_views(xs.drop_last()).push(yaml_view(xs.last()))
    }
}

/// The views of the entries of a YAML mapping.
pub open spec fn pair_views(xs: Seq<(YamlValue, YamlValue)>) -> Seq<(YamlView, YamlView)>
    decreases xs,
{
    if xs.len() == 0 {
        Seq::empty()
    } else {
        proof {
            assert(decreases_to!(xs => xs.subrange(0, xs.len() - 1)));
        }
        pair_views(xs.drop_last()).push((yaml_view(xs.last().0), yaml_view(xs.last().1)))
    }
}

/// `y` with every string that spells an octal number replaced by that
/// number; keys of mappings and tags are left as they are.
pub open spec fn fixed_view(y: YamlView) -> YamlView
    decreases y,
{
    match y {
        YamlView::String(s) => match octal_string_value(s) {
            Some(v) => YamlView::Number(int_number(v)),
            None => y,
        },
        YamlView::Sequence(xs) => YamlView::Sequence(fixed_seq(xs)),
        YamlView::Mapping(xs) => YamlView::Mapping(fixed_pairs(xs)),
        YamlView::Tagged(t, x) => YamlView::Tagged(t, Box::new(fixed_view(*x))),
        _ => y,
    }
}

/// [`fixed_view`] of each item.
pub open spec fn fixed_seq(xs: Seq<YamlView>) -> Seq<YamlView>
    decreases xs,
{
    if xs.len() == 0 {
        Seq::empty()
    } else {
        proof {
            assert(decreases_to!(xs => xs.subrange(0, xs.len() - 1)));
        }
        fixed_seq(xs.drop_last()).push(fixed_view(xs.last()))
    }
}

/// [`fixed_view`] of each value of a mapping, keys unchanged.
pub open spec fn fixed_pairs(xs: Seq<(YamlView, YamlView)>) -> Seq<(YamlView, YamlView)>
    decreases xs,
{
    if xs.len() == 0 {
        Seq::empty()
    } else {
        proof {
            assert(decreases_to!(xs => xs.subrange(0, xs.len() - 1)));
        }
        fixed_pairs(xs.drop_last()).push((xs.last().0, fixed_view(xs.last().1)))
    }
}

proof fn lemma_seq_views(xs: Seq<YamlValue>)
    ensures
        seq_views(xs).len() == xs.len(),
        forall|i: int| 0 <= i < xs.len() ==> #[trigger] seq_views(xs)[i] == yaml_view(xs[i]),
    decreases xs.len(),
{
    if xs.len() > 0 {
        lemma_seq_views(xs.drop_last());
    }
}

proof fn lemma_pair_views(xs: Seq<(YamlValue, YamlValue)>)
    ensures
        pair_views(xs).len() == xs.len(),
        forall|i: int| 0 <= i < xs.len() ==> #[trigger] pair_views(xs)[i] == (yaml_view(xs[i].0), yaml_view(xs[i].1)),
    decreases xs.len(),
{
    if xs.len() > 0 {
        lemma_pair_views(xs.drop_last());
    }
}

proof fn lemma_fixed_seq(xs: Seq<YamlView>)
    ensures
        fixed_seq(xs).len() == xs.len(),
        forall|i: int| 0 <= i < xs.len() ==> #[trigger] fixed_seq(xs)[i] == fixed_view(xs[i]),
    decreases xs.len(),
{
    if xs.len() > 0 {
        lemma_fixed_seq(xs.drop_last());
    }
}

proof fn lemma_fixed_pairs(xs: Seq<(YamlView, YamlView)>)
    ensures
        fixed_pairs(xs).len() == xs.len(),
        forall|i: int| 0 <= i < xs.len() ==> #[trigger] fixed_pairs(xs)[i] == (xs[i].0, fixed_view(xs[i].1)),
    decreases xs.len(),
{
    if xs.len() > 0 {
        lemma_fixed_pairs(xs.drop_last());
    }
}

/// `b` is `a` with every string that spells an octal number replaced by
/// that number; all else, keys of mappings and tags included, is unchanged.
pub open spec fn octal_fixed(a: YamlValue, b: YamlValue) -> bool
    decreases a,
{
    match a {
        YamlValue::String(s) => match octal_string_value(s@) {
            Some(v) => b == YamlValue::Number(int_number(v)),
            None => b matches YamlValue::String(t) && t@ == s@,
        },
        YamlValue::Sequence(xs) => b matches YamlValue::Sequence(ys) && ys@.len() == xs@.len()
            && forall|i: int| 0 <= i < xs@.len() ==> octal_fixed(#[trigger] xs@[i], ys@[i]),
        YamlValue::Mapping(xs) => b matches YamlValue::Mapping(ys) && ys@.len() == xs@.len()
            && forall|i: int| 0 <= i < xs@.len() ==> (#[trigger] xs@[i]).0 == ys@[i].0
                && octal_fixed(xs@[i].1, ys@[i].1),
        YamlValue::Tagged(tag, x) => b matches YamlValue::Tagged(tag2, y) && tag2 == tag && octal_fixed(*x, *y),
        _ => b == a,
    }
}

proof fn lemma_octal_prefix_le(s: Seq<char>, i: int)
    requires
        0 <= i <= s.len(),
        all_octal(s),
    ensures
        octal_value(s.take(i)) <= octal_value(s),
    decreases s.len(),
{
    if i < s.len() {
        let d = s.drop_last();
        assert(d.take(i) =~= s.take(i));
        assert forall|j: int| 0 <= j < d.len() implies is_octal_digit(#[trigger] d[j]) by {
            assert(d[j] == s[j]);
        }
        lemma_octal_prefix_le(d, i);
    } else {
        assert(s.take(i) =~= s);
    }
}

proof fn lemma_octal_fixed_view(a: YamlValue, b: YamlValue)
    requires
        octal_fixed(a, b),
    ensures
        yaml_view(b) == fixed_view(yaml_view(a)),
    decreases a,
{
    match a {
        YamlValue::Sequence(xs) => {
            let ys = b->Sequence_0;
            lemma_seq_views(xs@);
            lemma_seq_views(ys@);
            lemma_fixed_seq(seq_views(xs@));
            assert forall|i: int| 0 <= i < xs@.len() implies #[trigger] seq_views(ys@)[i] == fixed_seq(
                seq_views(xs@),
            )[i] by {
                assert(decreases_to!(a => a->Sequence_0));
                assert(decreases_to!(xs => xs@));
                assert(decreases_to!(xs@ => xs@[i]));
                lemma_octal_fixed_view(xs@[i], ys@[i]);
            }
            assert(seq_views(ys@) =~= fixed_seq(seq_views(xs@)));
        },
        YamlValue::Mapping(xs) => {
            let ys = b->Mapping_0;
            lemma_pair_views(xs@);
            lemma_pair_views(ys@);
            lemma_fixed_pairs(pair_views(xs@));
            assert forall|i: int| 0 <= i < xs@.len() implies #[trigger] pair_views(ys@)[i] == fixed_pairs(
                pair_views(xs@),
            )[i] by {
                assert(decreases_to!(a => a->Mapping_0));
                assert(decreases_to!(xs => xs@));
                assert(decreases_to!(xs@ => xs@[i]));
                assert(decreases_to!(xs@[i] => xs@[i].1));
                assert(xs@[i].0 == ys@[i].0);
                lemma_octal_fixed_view(xs@[i].1, ys@[i].1);
            }
            assert(pair_views(ys@) =~= fixed_pairs(pair_views(xs@)));
        },
        YamlValue::Tagged(t, x) => {
            let y = b->Tagged_1;
            lemma_octal_fixed_view(*x, *y);
        },
        _ => {},
    }
}

/// Repairing octal strings a second time changes nothing: every string
/// that spelled an octal number is a number after the first pass.
pub proof fn lemma_fixed_view_idempotent(y: YamlView)
    ensures
        fixed_view(fixed_view(y)) == fixed_view(y),
    decreases y,
{
    match y {
        YamlView::Sequence(xs) => {
            lemma_fixed_seq(xs);
            lemma_fixed_seq(fixed_seq(xs));
            assert forall|i: int| 0 <= i < xs.len() implies #[trigger] fixed_seq(fixed_seq(xs))[i] == fixed_seq(
                xs,
            )[i] by {
                assert(decreases_to!(y => xs));
                assert(decreases_to!(xs => xs[i]));
                lemma_fixed_view_idempotent(xs[i]);
            }
            assert(fixed_seq(fixed_seq(xs)) =~= fixed_seq(xs));
        },
        YamlView::Mapping(xs) => {
            lemma_fixed_pairs(xs);
            lemma_fixed_pairs(fixed_pairs(xs));
            assert forall|i: int| 0 <= i < xs.len() implies #[trigger] fixed_pairs(fixed_pairs(xs))[i]
                == fixed_pairs(xs)[i] by {
                assert(decreases_to!(y => xs));
                assert(decreases_to!(xs => xs[i]));
                assert(decreases_to!(xs[i] => xs[i].1));
                lemma_fixed_view_idempotent(xs[i].1);
            }
            assert(fixed_pairs(fixed_pairs(xs)) =~= fixed_pairs(xs));
        },
        YamlView::Tagged(t, x) => {
            lemma_fixed_view_idempotent(*x);
        },
        _ => {},
    }
}

/// `i64::from_str_radix(s, 8)`.
pub fn parse_octal_i64(s: &str) -> (r: Option<i64>)
    ensures
        match r {
            Some(v) => parse_i64_octal(s@) == Some(v as int),
            None => parse_i64_octal(s@) is None,
        },
{
    let n = s.unicode_len();
    if n == 0 {
        return None;
    }
    let first = s.get_char(0);
    let signed = first == '+' || first == '-';
    let negative = first == '-';
    let start: usize = if signed { 1 } else { 0 };
    let ghost d = if signed { s@.drop_first() } else { s@ };
    assert(d =~= s@.subrange(start as int, n as int));
    if start == n {
        return None;
    }
    let limit: u64 = if negative { 0x8000_0000_0000_0000 } else { 0x7fff_ffff_ffff_ffff };
    let mut acc: u64 = 0;
    let mut i: usize = start;
    while i < n
        invariant
            start <= i <= n,
            n == s@.len(),
            n > 0,
            first == s@[0],
            signed == (first == '+' || first == '-'),
            negative == (first == '-'),
            start == (if signed { 1usize } else { 0usize }),
            d =~= s@.subrange(start as int, n as int),
            d == unsigned_part(s@),
            limit == (if negative { 0x8000_0000_0000_0000u64 } else { 0x7fff_ffff_ffff_ffffu64 }),
            forall|j: int| 0 <= j < i - start ==> is_octal_digit(#[trigger] d[j]),
            acc as nat == octal_value(d.take(i - start)),
            acc <= limit,
        decreases n - i,
    {
        let c = s.get_char(i);
        if !('0' <= c && c <= '7') {
            assert(!is_octal_digit(d[i - start]));
            assert(!all_octal(d));
            return None;
        }
        let dv: u64 = (c as u32 - '0' as u32) as u64;
        assert(d.take(i + 1 - start).drop_last() =~= d.take(i - start));
        assert(d.take(i + 1 - start).last() == c);
        if acc > (limit - dv) / 8 {
            assert(octal_value(d.take(i + 1 - start)) > limit) by (nonlinear_arith)
                requires
                    octal_value(d.take(i + 1 - start)) == acc * 8 + dv,
                    acc > (limit - dv) / 8,
                    dv <= 7,
            ;
            proof {
                if all_octal(d) {
                    lemma_octal_prefix_le(d, i + 1 - start);
                }
            }
            return None;
        }
        assert(acc * 8 + dv <= limit) by (nonlinear_arith)
            requires
                acc <= (limit - dv) / 8,
                dv <= 7,
        ;
        acc = acc * 8 + dv;
        i = i + 1;
    }
    assert(d.take(n - start) =~= d);
    if negative {
        if acc == 0x8000_0000_0000_0000 {
            Some(i64::MIN)
        } else {
            Some(-(acc as i64))
        }
    } else {
        Some(acc as i64)
    }
}

/// The number a YAML string stands for when it spells an octal number.
pub fn octal_string_number(s: &str) -> (r: Option<i64>)
    ensures
        match r {
            Some(v) => octal_string_value(s@) == Some(v as int),
            None => octal_string_value(s@) is None,
        },
{
    let n = s.unicode_len();
    if n < 2 || s.get_char(0) != '0' {
        return None;
    }
    if s.get_char(1) == 'o' {
        let rest = s.substring_char(2, n);
        assert(rest@ =~= s@.skip(2));
        if let Some(v) = parse_octal_i64(rest) {
            return Some(v);
        }
    }
    let mut j: usize = 1;
    while j < n
        invariant
            1 <= j <= n,
            n == s@.len(),
            n >= 2,
            s@[0] == '0',
            !(s@[1] == 'o' && parse_i64_octal(s@.skip(2)) is Some),
            forall|k: int| 1 <= k < j ==> crate::text::is_digit(#[trigger] s@[k]),
        decreases n - j,
    {
        let c = s.get_char(j);
        if !('0' <= c && c <= '9') {
            assert(!all_digits(s@.skip(1))) by {
                assert(s@.skip(1)[j - 1] == c);
            }
            return None;
        }
        j = j + 1;
    }
    assert(all_digits(s@.skip(1))) by {
        assert forall|k: int| 0 <= k < s@.skip(1).len() implies crate::text::is_digit(#[trigger] s@.skip(1)[k]) by {
            assert(s@.skip(1)[k] == s@[k + 1]);
        }
    }
    parse_octal_i64(s)
}

/// The YAML number of an integer.
pub fn int_to_number(v: i64) -> (n: YamlNumber)
    ensures
        n == int_number(v as int),
{
    if v < 0 {
        YamlNumber::NegInt(v)
    } else {
        YamlNumber::PosInt(v as u64)
    }
}

/// Turns every string of `v` that spells an octal number into that number,
/// so that such values read as numbers in Kubernetes objects.
pub fn fix_octal_strings(v: YamlValue) -> (r: YamlValue)
    ensures
        octal_fixed(v, r),
        yaml_view(r) == fixed_view(yaml_view(v)),
    decreases v,
{
    let ghost orig = v;
    let r = fix_octal_nodes(v);
    proof {
        lemma_octal_fixed_view(orig, r);
    }
    r
}

fn fix_octal_nodes(v: YamlValue) -> (r: YamlValue)
    ensures
        octal_fixed(v, r),
    decreases v,
{
    let ghost orig = v;
    match v {
        YamlValue::Mapping(xs) => {
            let ghost xs0 = xs@;
            let ghost xs_g = xs;
            let mut out: Vec<(YamlValue, YamlValue)> = Vec::new();
            #[verifier::loop_isolation(false)]
            for kv in it: xs.into_iter()
                invariant
                    it.seq() == xs0,
                    orig == YamlValue::Mapping(xs_g),
                    xs0 == xs_g@,
                    out@.len() == it.index(),
                    forall|i: int| 0 <= i < it.index() ==> (#[trigger] xs0[i]).0 == out@[i].0
                        && octal_fixed(xs0[i].1, out@[i].1),
            {
                let ghost i = it.index();
                assert(kv == xs0[i]);
                let (k, val) = kv;
                proof {
                    assert(orig->Mapping_0 == xs_g);
                    assert(decreases_to!(orig => orig->Mapping_0));
                    assert(decreases_to!(xs_g => xs_g@));
                    assert(decreases_to!(xs_g@ => xs_g@[i]));
                    assert(decreases_to!(xs_g@[i] => xs_g@[i].1));
                    assert(decreases_to!(orig => val));
                }
                let fixed = fix_octal_nodes(val);
                out.push((k, fixed));
            }
            YamlValue::Mapping(out)
        },
        YamlValue::Sequence(xs) => {
            let ghost xs0 = xs@;
            let ghost xs_g = xs;
            let mut out: Vec<YamlValue> = Vec::new();
            #[verifier::loop_isolation(false)]
            for x in it: xs.into_iter()
                invariant
                    it.seq() == xs0,
                    orig == YamlValue::Sequence(xs_g),
                    xs0 == xs_g@,
                    out@.len() == it.index(),
                    forall|i: int| 0 <= i < it.index() ==> octal_fixed(#[trigger] xs0[i], out@[i]),
            {
                let ghost i = it.index();
                assert(x == xs0[i]);
                proof {
                    assert(orig->Sequence_0 == xs_g);
                    assert(decreases_to!(orig => orig->Sequence_0));
                    assert(decreases_to!(xs_g => xs_g@));
                    assert(decreases_to!(xs_g@ => xs_g@[i]));
                    assert(decreases_to!(orig => x));
                }
                let fixed = fix_octal_nodes(x);
                out.push(fixed);
            }
            YamlValue::Sequence(out)
        },
        YamlValue::String(s) => {
            match octal_string_number(s.as_str()) {
                Some(n) => YamlValue::Number(int_to_number(n)),
                None => YamlValue::String(s),
            }
        },
        YamlValue::Tagged(tag, x) => {
            let fixed = fix_octal_nodes(*x);
            YamlValue::Tagged(tag, Box::new(fixed))
        },
        other => other,
    }
}

} // verus!
