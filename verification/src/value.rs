//! The values a script computes with, and how they match, compare and are
//! written out.
use vstd::prelude::*;
use crate::number::{compare_number, compare_units, format_number, format_units, parse_units, Decimal};
use crate::text::{compare_text, concat2, str_eq, text_order, Ordered};

verus! {

/// The result of evaluating an expression.
#[derive(Debug)]
pub enum EvalResult {
    Undefined,
    Value(String),
    Number(Decimal),
    Named(Vec<(String, String)>),
    AnyValue,
    Failure(String),
}

/// What an `EvalResult` stands for.
pub ghost enum EvalValue {
    Undefined,
    Value(Seq<char>),
    Number(int),
    Named(Seq<(Seq<char>, Seq<char>)>),
    AnyValue,
    Failure(Seq<char>),
}

pub open spec fn pair_view(p: (String, String)) -> (Seq<char>, Seq<char>) {
    (p.0@, p.1@)
}

pub open spec fn pairs_view(s: Seq<(String, String)>) -> Seq<(Seq<char>, Seq<char>)> {
    s.map_values(|p: (String, String)| pair_view(p))
}

impl View for EvalResult {
    type V = EvalValue;

    open spec fn view(&self) -> EvalValue {
        match self {
            EvalResult::Undefined => EvalValue::Undefined,
            EvalResult::Value(s) => EvalValue::Value(s@),
            EvalResult::Number(n) => EvalValue::Number(n@),
            EvalResult::Named(pairs) => EvalValue::Named(pairs_view(pairs@)),
            EvalResult::AnyValue => EvalValue::AnyValue,
            EvalResult::Failure(msg) => EvalValue::Failure(msg@),
        }
    }
}

pub open spec fn values_view(s: Seq<EvalResult>) -> Seq<EvalValue> {
    s.map_values(|r: EvalResult| r@)
}

/// The value of the last pair with the given key.
pub open spec fn lookup_last(pairs: Seq<(Seq<char>, Seq<char>)>, key: Seq<char>) -> Option<
    Seq<char>,
>
    decreases pairs.len(),
{
    if pairs.len() == 0 {
        None
    } else if pairs.last().0 == key {
        Some(pairs.last().1)
    } else {
        lookup_last(pairs.drop_last(), key)
    }
}

/// The value of the first pair with the given key.
pub open spec fn lookup_first(pairs: Seq<(Seq<char>, Seq<char>)>, key: Seq<char>) -> Option<
    Seq<char>,
>
    decreases pairs.len(),
{
    if pairs.len() == 0 {
        None
    } else if pairs[0].0 == key {
        Some(pairs[0].1)
    } else {
        lookup_first(pairs.drop_first(), key)
    }
}

/// The mapping a list of pairs denotes: a later pair replaces an earlier one
/// with the same key.
pub open spec fn pairs_map(pairs: Seq<(Seq<char>, Seq<char>)>) -> Map<Seq<char>, Seq<char>>
    decreases pairs.len(),
{
    if pairs.len() == 0 {
        Map::empty()
    } else {
        pairs_map(pairs.drop_last()).insert(pairs.last().0, pairs.last().1)
    }
}

/// Two lists of pairs denote the same mapping.
pub open spec fn same_mapping(
    a: Seq<(Seq<char>, Seq<char>)>,
    b: Seq<(Seq<char>, Seq<char>)>,
) -> bool {
    pairs_map(a) == pairs_map(b)
}

/// Every key of `a` has the same last value in `a` and in `b`.
pub open spec fn covered_by(a: Seq<(Seq<char>, Seq<char>)>, b: Seq<(Seq<char>, Seq<char>)>) -> bool {
    forall|i: int| 0 <= i < a.len() ==> lookup_last(a, #[trigger] a[i].0) == lookup_last(b, a[i].0)
}

pub proof fn lemma_pairs_map_lookup(pairs: Seq<(Seq<char>, Seq<char>)>, key: Seq<char>)
    ensures
        pairs_map(pairs).contains_key(key) <==> lookup_last(pairs, key) is Some,
        pairs_map(pairs).contains_key(key) ==> pairs_map(pairs)[key] == lookup_last(
            pairs,
            key,
        ).unwrap(),
        lookup_last(pairs, key) is Some <==> exists|i: int|
            0 <= i < pairs.len() && (#[trigger] pairs[i]).0 == key,
    decreases pairs.len(),
{
    if pairs.len() > 0 {
        let front = pairs.drop_last();
        lemma_pairs_map_lookup(front, key);
        if pairs.last().0 == key {
            assert(pairs[pairs.len() - 1].0 == key);
        } else {
            if lookup_last(front, key) is Some {
                let i = choose|i: int| 0 <= i < front.len() && (#[trigger] front[i]).0 == key;
                assert(pairs[i].0 == key);
            }
            if exists|i: int| 0 <= i < pairs.len() && (#[trigger] pairs[i]).0 == key {
                let i = choose|i: int| 0 <= i < pairs.len() && (#[trigger] pairs[i]).0 == key;
                assert(front[i].0 == key);
            }
        }
    }
}

/// Two lists denote the same mapping exactly when each covers the other.
pub proof fn lemma_same_mapping(a: Seq<(Seq<char>, Seq<char>)>, b: Seq<(Seq<char>, Seq<char>)>)
    ensures
        same_mapping(a, b) <==> covered_by(a, b) && covered_by(b, a),
{
    if covered_by(a, b) && covered_by(b, a) {
        assert forall|k: Seq<char>| lookup_last(a, k) == lookup_last(b, k) by {
            lemma_pairs_map_lookup(a, k);
            lemma_pairs_map_lookup(b, k);
            if lookup_last(a, k) is Some {
                let i = choose|i: int| 0 <= i < a.len() && (#[trigger] a[i]).0 == k;
                assert(lookup_last(a, a[i].0) == lookup_last(b, a[i].0));
            } else if lookup_last(b, k) is Some {
                let i = choose|i: int| 0 <= i < b.len() && (#[trigger] b[i]).0 == k;
                assert(lookup_last(b, b[i].0) == lookup_last(a, b[i].0));
            }
        }
        assert forall|k: Seq<char>| #[trigger]
            pairs_map(a).dom().contains(k) <==> pairs_map(b).dom().contains(k) by {
            lemma_pairs_map_lookup(a, k);
            lemma_pairs_map_lookup(b, k);
        }
        assert forall|k: Seq<char>| #[trigger] pairs_map(a).dom().contains(k) implies pairs_map(
            a,
        )[k] == pairs_map(b)[k] by {
            lemma_pairs_map_lookup(a, k);
            lemma_pairs_map_lookup(b, k);
        }
        assert(pairs_map(a).dom() =~= pairs_map(b).dom());
        assert(pairs_map(a) =~= pairs_map(b));
    }
    if same_mapping(a, b) {
        assert forall|k: Seq<char>| lookup_last(a, k) == lookup_last(b, k) by {
            lemma_pairs_map_lookup(a, k);
            lemma_pairs_map_lookup(b, k);
        }
    }
}

/// The value of the last pair of `pairs` whose key is `key`.
pub fn find_last<'a>(pairs: &'a [(String, String)], key: &str) -> (r: Option<&'a String>)
    ensures
        match lookup_last(pairs_view(pairs@), key@) {
            Some(v) => r is Some && r.unwrap()@ == v,
            None => r is None,
        },
{
    let mut i: usize = pairs.len();
    let ghost all = pairs_view(pairs@);
    assert(all.take(i as int) == all);
    while i > 0
        invariant
            i <= pairs.len(),
            all == pairs_view(pairs@),
            lookup_last(all, key@) == lookup_last(all.take(i as int), key@),
        decreases i,
    {
        let ghost cur = all.take(i as int);
        i -= 1;
        assert(cur.last() == pair_view(pairs@[i as int]));
        assert(cur.drop_last() == all.take(i as int));
        if str_eq(pairs[i].0.as_str(), key) {
            return Some(&pairs[i].1);
        }
    }
    assert(all.take(0).len() == 0);
    None
}

fn covers(a: &[(String, String)], b: &[(String, String)]) -> (r: bool)
    ensures
        r == covered_by(pairs_view(a@), pairs_view(b@)),
{
    let ghost av = pairs_view(a@);
    let ghost bv = pairs_view(b@);
    let mut i: usize = 0;
    while i < a.len()
        invariant
            i <= a.len(),
            av == pairs_view(a@),
            bv == pairs_view(b@),
            forall|j: int| 0 <= j < i ==> lookup_last(av, #[trigger] av[j].0) == lookup_last(bv, av[j].0),
        decreases a.len() - i,
    {
        let key = a[i].0.as_str();
        assert(av[i as int].0 == key@);
        let same = match (find_last(a, key), find_last(b, key)) {
            (Some(x), Some(y)) => str_eq(x.as_str(), y.as_str()),
            (None, None) => true,
            _ => false,
        };
        if !same {
            return false;
        }
        i += 1;
    }
    true
}

/// Whether two lists of pairs are equal as mappings from key to value.
pub fn compare_tuple_vec(a: &[(String, String)], b: &[(String, String)]) -> (r: bool)
    ensures
        r == same_mapping(pairs_view(a@), pairs_view(b@)),
{
    proof {
        lemma_same_mapping(pairs_view(a@), pairs_view(b@));
    }
    covers(a, b) && covers(b, a)
}

/// Whether a number equals what a text denotes, under the tolerance.
pub open spec fn number_matches_text(n: int, t: Seq<char>) -> bool {
    match parse_units(t) {
        Some(u) => compare_units(n, u) == Ordered::Equal,
        None => false,
    }
}

/// How a number compares with what a text denotes; `None` where the text
/// denotes no number.
pub open spec fn number_compare_text(n: int, t: Seq<char>) -> Option<Ordered> {
    match parse_units(t) {
        Some(u) => Some(compare_units(n, u)),
        None => None,
    }
}

/// The matching relation between two values.
pub open spec fn values_match(a: EvalValue, b: EvalValue) -> bool {
    match (a, b) {
        (EvalValue::AnyValue, _) => true,
        (_, EvalValue::AnyValue) => true,
        (EvalValue::Value(x), EvalValue::Value(y)) => x == y,
        (EvalValue::Number(x), EvalValue::Value(y)) => number_matches_text(x, y),
        (EvalValue::Value(x), EvalValue::Number(y)) => number_matches_text(y, x),
        (EvalValue::Number(x), EvalValue::Number(y)) => compare_units(x, y) == Ordered::Equal,
        (EvalValue::Named(x), EvalValue::Named(y)) => same_mapping(x, y),
        _ => false,
    }
}

/// The order between two values; `None` where they are incomparable.
pub open spec fn values_compare(a: EvalValue, b: EvalValue) -> Option<Ordered> {
    match (a, b) {
        (EvalValue::AnyValue, _) => Some(Ordered::Equal),
        (_, EvalValue::AnyValue) => Some(Ordered::Equal),
        (EvalValue::Value(x), EvalValue::Value(y)) => Some(text_order(x, y)),
        (EvalValue::Number(x), EvalValue::Value(y)) => number_compare_text(x, y),
        (EvalValue::Value(x), EvalValue::Number(y)) => match number_compare_text(y, x) {
            Some(o) => Some(o.reversed()),
            None => None,
        },
        (EvalValue::Number(x), EvalValue::Number(y)) => Some(compare_units(x, y)),
        (EvalValue::Named(x), EvalValue::Named(y)) => if same_mapping(x, y) {
            Some(Ordered::Equal)
        } else {
            None
        },
        _ => None,
    }
}

/// The message of a failed number conversion.
pub open spec fn invalid_number_message(text: Seq<char>) -> Seq<char> {
    "Invalid number: "@ + text
}

/// What converting a text to a number gives.
pub open spec fn text_to_number(text: Seq<char>) -> EvalValue {
    match parse_units(text) {
        Some(u) => EvalValue::Number(u),
        None => EvalValue::Failure(invalid_number_message(text)),
    }
}

/// Converts a text to a number, or to a failure that names the text.
pub fn to_number(value: &str) -> (r: EvalResult)
    ensures
        r@ == text_to_number(value@),
{
    match Decimal::parse(value) {
        Some(num) => EvalResult::Number(num),
        None => EvalResult::Failure(concat2("Invalid number: ", value)),
    }
}

/// Whether `num` equals what `s` denotes, under the tolerance.
pub fn match_number(num: Decimal, s: &str) -> (r: bool)
    ensures
        r == number_matches_text(num@, s@),
{
    match Decimal::parse(s) {
        Some(val) => compare_number(num, val) == Ordered::Equal,
        None => false,
    }
}

/// How `num` compares with what `s` denotes.
pub fn cmp_number(num: Decimal, s: &str) -> (r: Option<Ordered>)
    ensures
        r == number_compare_text(num@, s@),
{
    match Decimal::parse(s) {
        Some(val) => Some(compare_number(num, val)),
        None => None,
    }
}

/// A copy of a list of pairs.
pub fn clone_pairs(pairs: &Vec<(String, String)>) -> (r: Vec<(String, String)>)
    ensures
        pairs_view(r@) == pairs_view(pairs@),
{
    let mut out: Vec<(String, String)> = Vec::new();
    let mut i: usize = 0;
    while i < pairs.len()
        invariant
            i <= pairs.len(),
            out.len() == i,
            forall|j: int| 0 <= j < i ==> pair_view(#[trigger] out@[j]) == pair_view(pairs@[j]),
        decreases pairs.len() - i,
    {
        out.push((pairs[i].0.clone(), pairs[i].1.clone()));
        i += 1;
    }
    assert(pairs_view(out@) =~= pairs_view(pairs@));
    out
}

impl Clone for EvalResult {
    fn clone(&self) -> (r: Self)
        ensures
            r@ == self@,
    {
        match self {
            EvalResult::Undefined => EvalResult::Undefined,
            EvalResult::Value(s) => EvalResult::Value(s.clone()),
            EvalResult::Number(n) => EvalResult::Number(*n),
            EvalResult::Named(pairs) => EvalResult::Named(clone_pairs(pairs)),
            EvalResult::AnyValue => EvalResult::AnyValue,
            EvalResult::Failure(msg) => EvalResult::Failure(msg.clone()),
        }
    }
}

impl EvalResult {
    /// Whether the two values match.
    pub fn matches(&self, other: &EvalResult) -> (r: bool)
        ensures
            r == values_match(self@, other@),
    {
        match (self, other) {
            (EvalResult::AnyValue, _) => true,
            (_, EvalResult::AnyValue) => true,
            (EvalResult::Value(a), EvalResult::Value(b)) => str_eq(a.as_str(), b.as_str()),
            (EvalResult::Number(a), EvalResult::Value(b)) => match_number(*a, b.as_str()),
            (EvalResult::Value(a), EvalResult::Number(b)) => match_number(*b, a.as_str()),
            (EvalResult::Number(a), EvalResult::Number(b)) => compare_number(*a, *b)
                == Ordered::Equal,
            (EvalResult::Named(a), EvalResult::Named(b)) => compare_tuple_vec(
                a.as_slice(),
                b.as_slice(),
            ),
            _ => false,
        }
    }

    /// The order between the two values, where they are comparable, as the
    /// library's own three-way order.
    pub fn order_with(&self, other: &EvalResult) -> (r: Option<Ordered>)
        ensures
            r == values_compare(self@, other@),
    {
        match (self, other) {
            (EvalResult::AnyValue, _) => Some(Ordered::Equal),
            (_, EvalResult::AnyValue) => Some(Ordered::Equal),
            (EvalResult::Value(a), EvalResult::Value(b)) => Some(
                compare_text(a.as_str(), b.as_str()),
            ),
            (EvalResult::Number(a), EvalResult::Value(b)) => cmp_number(*a, b.as_str()),
            (EvalResult::Value(a), EvalResult::Number(b)) => match cmp_number(*b, a.as_str()) {
                None => None,
                Some(ord) => Some(ord.reverse()),
            },
            (EvalResult::Number(a), EvalResult::Number(b)) => Some(compare_number(*a, *b)),
            (EvalResult::Named(a), EvalResult::Named(b)) => if compare_tuple_vec(
                a.as_slice(),
                b.as_slice(),
            ) {
                Some(Ordered::Equal)
            } else {
                None
            },
            _ => None,
        }
    }

    /// Whether the value is a failure.
    pub fn is_error(&self) -> (r: bool)
        ensures
            r == (self@ is Failure),
    {
        match self {
            EvalResult::Failure(_) => true,
            _ => false,
        }
    }
}

/// The pieces a list of pairs is written as: key, `": "`, value, and `", "`
/// between two pairs.
pub open spec fn named_pieces(pairs: Seq<(Seq<char>, Seq<char>)>) -> Seq<Seq<char>>
    decreases pairs.len(),
{
    if pairs.len() == 0 {
        Seq::empty()
    } else if pairs.len() == 1 {
        seq![pairs[0].0, ": "@, pairs[0].1]
    } else {
        named_pieces(pairs.drop_last()) + seq![", "@, pairs.last().0, ": "@, pairs.last().1]
    }
}

/// The pieces one value is written as.
pub open spec fn value_pieces(v: EvalValue) -> Seq<Seq<char>> {
    match v {
        EvalValue::Value(s) => seq![s],
        EvalValue::Number(n) => seq![format_units(n)],
        EvalValue::Named(pairs) => named_pieces(pairs),
        _ => Seq::empty(),
    }
}

/// The pieces a list of values is written as, in order.
pub open spec fn concat_pieces(args: Seq<EvalValue>) -> Seq<Seq<char>>
    decreases args.len(),
{
    if args.len() == 0 {
        Seq::empty()
    } else {
        concat_pieces(args.drop_last()) + value_pieces(args.last())
    }
}

pub open spec fn texts_view(s: Seq<String>) -> Seq<Seq<char>> {
    s.map_values(|t: String| t@)
}

/// Appends the pieces of a list of pairs.
pub fn push_named_pieces(out: &mut Vec<String>, pairs: &Vec<(String, String)>)
    ensures
        texts_view(final(out)@) == texts_view(old(out)@) + named_pieces(pairs_view(pairs@)),
{
    let ghost all = pairs_view(pairs@);
    let ghost start = texts_view(out@);
    let mut i: usize = 0;
    assert(all.take(0).len() == 0);
    assert(start + named_pieces(all.take(0)) =~= start);
    while i < pairs.len()
        invariant
            i <= pairs.len(),
            all == pairs_view(pairs@),
            texts_view(out@) == start + named_pieces(all.take(i as int)),
        decreases pairs.len() - i,
    {
        let ghost before = texts_view(out@);
        let ghost next = all.take(i as int + 1);
        assert(next.drop_last() == all.take(i as int));
        assert(next.last() == pair_view(pairs@[i as int]));
        if i > 0 {
            out.push(", ".to_owned());
        }
        out.push(pairs[i].0.clone());
        out.push(": ".to_owned());
        out.push(pairs[i].1.clone());
        proof {
            if i == 0 {
                assert(next[0] == next.last());
                assert(named_pieces(all.take(0)) =~= Seq::<Seq<char>>::empty());
                assert(texts_view(out@) =~= before + seq![next[0].0, ": "@, next[0].1]);
            } else {
                assert(texts_view(out@) =~= before + seq![
                    ", "@,
                    next.last().0,
                    ": "@,
                    next.last().1,
                ]);
            }
            assert(texts_view(out@) =~= start + named_pieces(next));
        }
        i += 1;
    }
    assert(all.take(pairs.len() as int) == all);
}

/// The pieces the values are written as: a text as it is, a number formatted,
/// pairs as `key: value` joined by `", "`; other values give nothing.
pub fn concat_args(args: &Vec<EvalResult>) -> (r: Vec<String>)
    ensures
        texts_view(r@) == concat_pieces(values_view(args@)),
{
    let mut result: Vec<String> = Vec::new();
    let ghost all = values_view(args@);
    let mut i: usize = 0;
    assert(all.take(0).len() == 0);
    assert(texts_view(result@) =~= concat_pieces(all.take(0)));
    while i < args.len()
        invariant
            i <= args.len(),
            all == values_view(args@),
            texts_view(result@) == concat_pieces(all.take(i as int)),
        decreases args.len() - i,
    {
        let ghost before = texts_view(result@);
        let ghost next = all.take(i as int + 1);
        assert(next.drop_last() == all.take(i as int));
        assert(next.last() == args@[i as int]@);
        match &args[i] {
            EvalResult::Value(value) => {
                result.push(value.clone());
                assert(texts_view(result@) =~= before + seq![value@]);
            },
            EvalResult::Number(value) => {
                let text = format_number(*value);
                result.push(text);
                assert(texts_view(result@) =~= before + seq![format_units(value@)]);
            },
            EvalResult::Named(pairs) => {
                push_named_pieces(&mut result, pairs);
            },
            _ => {
                assert(before + Seq::<Seq<char>>::empty() =~= before);
            },
        }
        i += 1;
    }
    assert(all.take(args.len() as int) == all);
    result
}

} // verus!
