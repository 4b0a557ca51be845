//! Matching playlist entries with lists of films and series: the parts that
//! work on titles, kinds and time stamps.
use vstd::prelude::*;
use vstd::string::StringExecFns;
use crate::number::{digits_of, push_digits};
use regex::Regex;
use crate::eval::join;
use crate::regex_engine::{
    all_captures, built_from, captures_view, compile, groups_view, regex_accepts, regex_captures,
    regex_plain, regex_replaced, regex_source, replace_all,
};
use crate::semantics::join_texts;
use crate::text::{
    concat3, decimal_value, is_unsigned_text, parse_u32, replace, replaced, split_words,
    str_to_lowercase, to_lowercase, trim, trimmed, unsigned_digits, words_of,
};

verus! {

/// Hours a fetched list stays good for.
pub const CACHE_EXPIRY_HOURS: u64 = 6;

/// What a list holds.
#[derive(Debug, Clone, Copy, PartialEq, Eq, Structural)]
pub enum TraktContentType {
    Vod,
    Series,
    Both,
}

/// The kind of a playlist entry.
#[derive(Debug, Clone, Copy, PartialEq, Eq, Structural)]
pub enum XtreamCluster {
    Live,
    Video,
    Series,
}

/// Whether an item of the given kind belongs to a list of the given kind.
pub fn should_include_item(item: TraktContentType, list: TraktContentType) -> (r: bool)
    ensures
        r == match list {
            TraktContentType::Vod => item == TraktContentType::Vod,
            TraktContentType::Series => item == TraktContentType::Series,
            TraktContentType::Both => true,
        },
{
    match list {
        TraktContentType::Vod => item == TraktContentType::Vod,
        TraktContentType::Series => item == TraktContentType::Series,
        TraktContentType::Both => true,
    }
}

/// Whether a playlist entry of the given kind can match a list of the given
/// kind.
pub fn is_compatible_content_type(cluster: XtreamCluster, list: TraktContentType) -> (r: bool)
    ensures
        r == match list {
            TraktContentType::Vod => cluster == XtreamCluster::Video,
            TraktContentType::Series => cluster == XtreamCluster::Series,
            TraktContentType::Both => cluster == XtreamCluster::Video || cluster
                == XtreamCluster::Series,
        },
{
    match list {
        TraktContentType::Vod => cluster == XtreamCluster::Video,
        TraktContentType::Series => cluster == XtreamCluster::Series,
        TraktContentType::Both => cluster == XtreamCluster::Video || cluster
            == XtreamCluster::Series,
    }
}

/// The kind of the category a list becomes: that of the list, or for a list
/// of both kinds that of its first entry, `Video` where it has none.
pub fn category_cluster(list: TraktContentType, first: Option<XtreamCluster>) -> (r: XtreamCluster)
    ensures
        r == match list {
            TraktContentType::Vod => XtreamCluster::Video,
            TraktContentType::Series => XtreamCluster::Series,
            TraktContentType::Both => match first {
                Some(c) => c,
                None => XtreamCluster::Video,
            },
        },
{
    match list {
        TraktContentType::Vod => XtreamCluster::Video,
        TraktContentType::Series => XtreamCluster::Series,
        TraktContentType::Both => match first {
            Some(c) => c,
            None => XtreamCluster::Video,
        },
    }
}

/// Whether a list fetched at `last_updated` is still good at `now`, both in
/// seconds: for less than six full hours.
pub fn is_cache_valid_at(now: u64, last_updated: u64) -> (r: bool)
    requires
        last_updated <= now,
    ensures
        r == ((now - last_updated) / 3600 < CACHE_EXPIRY_HOURS),
{
    let cache_age_hours = (now - last_updated) / 3600;
    cache_age_hours < CACHE_EXPIRY_HOURS
}

/// The address the items of a list are fetched from.
pub fn build_list_url(base_url: &str, user: &str, list_slug: &str) -> (r: String)
    ensures
        r@ == base_url@ + "/users/"@ + user@ + "/lists/"@ + list_slug@ + "/items"@,
{
    let mut out = concat3(base_url, "/users/", user);
    out.append("/lists/");
    out.append(list_slug);
    out.append("/items");
    out
}

/// The key a list is cached under.
pub fn get_cache_key(user: &str, list_slug: &str) -> (r: String)
    ensures
        r@ == user@ + ":"@ + list_slug@,
{
    concat3(user, ":", list_slug)
}

/// The pattern a year at the end of a title is found by: four digits,
/// possibly in parentheses.
pub open spec fn year_pattern() -> Seq<char> {
    "\\(?(\\d{4})\\)?$"@
}

/// The year at the end of a title: the four digits the pattern finds, where
/// they denote a year from 1900 to 2100.
pub open spec fn title_year(title: Seq<char>) -> Option<u32> {
    let found = regex_captures(year_pattern(), title);
    if regex_accepts(year_pattern()) && found.len() > 0 && found[0].len() > 1
        && found[0][1] is Some {
        let digits = found[0][1].unwrap();
        if is_unsigned_text(digits, 4294967295) && 1900 <= decimal_value(unsigned_digits(digits))
            <= 2100 {
            Some(decimal_value(unsigned_digits(digits)) as u32)
        } else {
            None
        }
    } else {
        None
    }
}

/// A title without its year: without the year in parentheses, without the
/// year behind a space, and trimmed.
pub open spec fn title_without_year(title: Seq<char>, year: u32) -> Seq<char> {
    let digits = digits_of(year as nat);
    trimmed(
        replaced(replaced(title, "("@ + digits + ")"@, Seq::empty()), " "@ + digits, Seq::empty()),
    )
}

/// Splits a title into the title proper and the year at its end; a title
/// without a year is handed back as it is.
pub fn extract_year_from_title(title: &str) -> (r: (String, Option<u32>))
    ensures
        r.1 == title_year(title@),
        r.0@ == match title_year(title@) {
            Some(year) => title_without_year(title@, year),
            None => title@,
        },
{
    let year_regex = match compile("\\(?(\\d{4})\\)?$") {
        Ok(re) => re,
        Err(_) => {
            return (title.to_owned(), None);
        },
    };
    let found = all_captures(&year_regex, title);
    if found.len() > 0 && found[0].len() > 1 {
        assert(captures_view(found@)[0] == groups_view(found@[0]@));
        assert(groups_view(found@[0]@)[1] == crate::regex_engine::opt_text_view(found@[0]@[1]));
        match &found[0][1] {
            Some(year_str) => {
                match parse_u32(year_str.as_str()) {
                    Some(year) => {
                        if year >= 1900 && year <= 2100 {
                            let mut digits = String::new();
                            push_digits(&mut digits, year as u128);
                            assert(digits@ =~= digits_of(year as nat));
                            let in_parentheses = concat3("(", digits.as_str(), ")");
                            let behind_space = crate::text::concat2(" ", digits.as_str());
                            proof {
                                reveal_strlit("(");
                                reveal_strlit(" ");
                                reveal_strlit("");
                                assert(""@ =~= Seq::<char>::empty());
                            }
                            let first = replace(title, in_parentheses.as_str(), "");
                            let second = replace(first.as_str(), behind_space.as_str(), "");
                            return (trim(second.as_str()), Some(year));
                        }
                    },
                    None => {},
                }
            },
            None => {},
        }
    }
    (title.to_owned(), None)
}

/// The rank an item without rank is ordered by.
pub const DEFAULT_RANK: u32 = 9999;

/// The rank an item is ordered by.
pub open spec fn rank_key(rank: Option<u32>) -> u32 {
    match rank {
        Some(r) => r,
        None => DEFAULT_RANK,
    }
}

/// The indices of the items of a list whose external id is the given one, in
/// order.
pub open spec fn ids_equal_to(ids: Seq<Option<u32>>, id: u32, upto: int) -> Seq<int>
    decreases upto,
{
    if upto <= 0 || upto > ids.len() {
        Seq::empty()
    } else if ids[upto - 1] == Some(id) {
        ids_equal_to(ids, id, upto - 1).push(upto - 1)
    } else {
        ids_equal_to(ids, id, upto - 1)
    }
}

pub open spec fn indices_view(s: Seq<usize>) -> Seq<int> {
    s.map_values(|i: usize| i as int)
}

/// The items of a list that match a playlist entry exactly: those with the
/// external id of the entry, by their indices, in order.
pub fn exact_matches(playlist_id: u32, item_ids: &Vec<Option<u32>>) -> (r: Vec<usize>)
    ensures
        indices_view(r@) == ids_equal_to(item_ids@, playlist_id, item_ids@.len() as int),
{
    let mut out: Vec<usize> = Vec::new();
    let mut i: usize = 0;
    assert(indices_view(out@) =~= ids_equal_to(item_ids@, playlist_id, 0));
    while i < item_ids.len()
        invariant
            i <= item_ids.len(),
            indices_view(out@) == ids_equal_to(item_ids@, playlist_id, i as int),
        decreases item_ids.len() - i,
    {
        let ghost before = indices_view(out@);
        match item_ids[i] {
            Some(id) => {
                if id == playlist_id {
                    out.push(i);
                    assert(indices_view(out@) =~= before.push(i as int));
                }
            },
            None => {},
        }
        i += 1;
    }
    out
}

/// Where an item of the given rank goes among indices that are in order of
/// rank: behind those whose rank is not higher.
pub open spec fn rank_position(ranks: Seq<Option<u32>>, order: Seq<int>, key: u32, i: int) -> int
    decreases order.len() - i,
{
    if i < 0 || i >= order.len() {
        order.len() as int
    } else if 0 <= order[i] < ranks.len() && rank_key(ranks[order[i]]) > key {
        i
    } else {
        rank_position(ranks, order, key, i + 1)
    }
}

/// The indices of the first `upto` items in order of rank; items of equal
/// rank keep the order they came in, and an item without rank counts as of
/// rank 9999.
pub open spec fn by_rank(ranks: Seq<Option<u32>>, upto: int) -> Seq<int>
    decreases upto,
{
    if upto <= 0 || upto > ranks.len() {
        Seq::empty()
    } else {
        let before = by_rank(ranks, upto - 1);
        before.insert(rank_position(ranks, before, rank_key(ranks[upto - 1]), 0), upto - 1)
    }
}

/// The indices in order of rank are indices of the list, as many as there are
/// items.
pub proof fn lemma_by_rank(ranks: Seq<Option<u32>>, upto: int)
    requires
        0 <= upto <= ranks.len(),
    ensures
        by_rank(ranks, upto).len() == upto,
        forall|k: int| 0 <= k < upto ==> 0 <= #[trigger] by_rank(ranks, upto)[k] < upto,
        in_rank_order(ranks, by_rank(ranks, upto)),
    decreases upto,
{
    if upto > 0 {
        lemma_by_rank(ranks, upto - 1);
        let before = by_rank(ranks, upto - 1);
        let key = rank_key(ranks[upto - 1]);
        lemma_rank_position(ranks, before, key, 0);
        let p = rank_position(ranks, before, key, 0);
        let after = before.insert(p, upto - 1);
        assert forall|k: int| 0 <= k < upto implies 0 <= #[trigger] after[k] < upto by {
            if k < p {
                assert(after[k] == before[k]);
            } else if k > p {
                assert(after[k] == before[k - 1]);
            }
        }
        assert forall|i: int, j: int| 0 <= i <= j < after.len() implies rank_key(
            ranks[#[trigger] after[i]],
        ) <= rank_key(ranks[#[trigger] after[j]]) by {
            if i < p {
                assert(after[i] == before[i]);
            } else if i > p {
                assert(after[i] == before[i - 1]);
            }
            if j < p {
                assert(after[j] == before[j]);
            } else if j > p {
                assert(after[j] == before[j - 1]);
                if i <= p {
                    assert(rank_key(ranks[before[p]]) <= rank_key(ranks[before[j - 1]]));
                }
            }
        }
    }
}

/// The position found lies in the list; the items before it from `i` on are
/// not of higher rank, and the item at it is.
pub proof fn lemma_rank_position(ranks: Seq<Option<u32>>, order: Seq<int>, key: u32, i: int)
    requires
        0 <= i <= order.len(),
        forall|k: int| 0 <= k < order.len() ==> 0 <= #[trigger] order[k] < ranks.len(),
    ensures
        i <= rank_position(ranks, order, key, i) <= order.len(),
        forall|k: int|
            i <= k < rank_position(ranks, order, key, i) ==> rank_key(ranks[#[trigger] order[k]])
                <= key,
        rank_position(ranks, order, key, i) < order.len() ==> rank_key(
            ranks[order[rank_position(ranks, order, key, i)]],
        ) > key,
    decreases order.len() - i,
{
    if i < order.len() && !(0 <= order[i] < ranks.len() && rank_key(ranks[order[i]]) > key) {
        lemma_rank_position(ranks, order, key, i + 1);
    }
}

/// Whether indices are in order of the ranks of their items.
pub open spec fn in_rank_order(ranks: Seq<Option<u32>>, order: Seq<int>) -> bool {
    forall|i: int, j: int|
        0 <= i <= j < order.len() ==> rank_key(ranks[#[trigger] order[i]]) <= rank_key(
            ranks[#[trigger] order[j]],
        )
}

/// The order the matches of a list are shown in: by rank.
pub fn rank_order(ranks: &Vec<Option<u32>>) -> (r: Vec<usize>)
    ensures
        indices_view(r@) == by_rank(ranks@, ranks@.len() as int),
        in_rank_order(ranks@, indices_view(r@)),
        r.len() == ranks.len(),
        forall|k: int| 0 <= k < r.len() ==> #[trigger] r@[k] < ranks.len(),
{
    let mut order: Vec<usize> = Vec::new();
    let mut i: usize = 0;
    assert(indices_view(order@) =~= by_rank(ranks@, 0));
    while i < ranks.len()
        invariant
            i <= ranks.len(),
            order.len() == i,
            indices_view(order@) == by_rank(ranks@, i as int),
            forall|k: int| 0 <= k < order.len() ==> #[trigger] order@[k] < i,
        decreases ranks.len() - i,
    {
        let key = match ranks[i] {
            Some(r) => r,
            None => DEFAULT_RANK,
        };
        let ghost before = indices_view(order@);
        let mut p: usize = 0;
        while p < order.len() && rank_of(ranks, order[p]) <= key
            invariant
                p <= order.len(),
                i < ranks.len(),
                before == indices_view(order@),
                forall|k: int| 0 <= k < order.len() ==> #[trigger] order@[k] < i,
                rank_position(ranks@, before, key, 0) == rank_position(
                    ranks@,
                    before,
                    key,
                    p as int,
                ),
            decreases order.len() - p,
        {
            assert(before[p as int] == order@[p as int]);
            p += 1;
        }
        proof {
            if p < order.len() {
                assert(before[p as int] == order@[p as int]);
            }
        }
        order.insert(p, i);
        assert(indices_view(order@) =~= before.insert(p as int, i as int));
        i += 1;
    }
    proof {
        lemma_by_rank(ranks@, ranks@.len() as int);
    }
    order
}

fn rank_of(ranks: &Vec<Option<u32>>, index: usize) -> (r: u32)
    requires
        index < ranks.len(),
    ensures
        r == rank_key(ranks@[index as int]),
{
    match ranks[index] {
        Some(r) => r,
        None => DEFAULT_RANK,
    }
}

/// The ASCII transliteration of a text: what `deunicode::deunicode` gives.
pub uninterp spec fn deunicoded(s: Seq<char>) -> Seq<char>;

/// Calls `deunicode::deunicode`. Not proved; believed: the result is the
/// transliteration of the text, which depends on the text alone.
#[verifier::external_body]
fn transliterate(s: &str) -> (r: String)
    ensures
        r@ == deunicoded(s@),
{
    deunicode::deunicode(s)
}

/// How titles are reduced for matching: by the pattern of what is taken out,
/// compiled the plain way.
#[derive(Debug, Clone)]
pub struct TraktNormalizeConfig {
    pub normalize_regex: Regex,
}

/// The pattern of what is taken out of a title by default: all but small
/// letters, digits and white space.
pub open spec fn standard_pattern() -> Seq<char> {
    "[^a-z0-9\\s]"@
}

impl TraktNormalizeConfig {
    /// The default: all but small letters, digits and white space is taken
    /// out. None where the engine does not accept the pattern.
    pub fn standard() -> (r: Option<TraktNormalizeConfig>)
        ensures
            r is Some <==> regex_accepts(standard_pattern()),
            r matches Some(c) ==> built_from(c.normalize_regex, standard_pattern()),
    {
        match compile("[^a-z0-9\\s]") {
            Ok(re) => Some(TraktNormalizeConfig { normalize_regex: re }),
            Err(_) => None,
        }
    }
}

/// A title reduced for matching: trimmed, transliterated, in lower case, with
/// a space for everything the pattern takes out, and its words joined by
/// single spaces.
pub open spec fn normalized_title(title: Seq<char>, pattern: Seq<char>) -> Seq<char> {
    let plain = str_to_lowercase(deunicoded(trimmed(title)));
    trimmed(join_texts(words_of(regex_replaced(pattern, plain, " "@)), " "@))
}

/// Reduces a title for matching.
pub fn normalize_title_for_matching(title: &str, config: &TraktNormalizeConfig) -> (r: String)
    requires
        regex_plain(config.normalize_regex),
    ensures
        r@ == normalized_title(title@, regex_source(config.normalize_regex)),
{
    let normalized = to_lowercase(transliterate(trim(title).as_str()).as_str());
    let cleaned_name = replace_all(&config.normalize_regex, normalized.as_str(), " ");
    let words = split_words(cleaned_name.as_str());
    assert(crate::value::texts_view(words@) =~= words@.map_values(|t: String| t@));
    trim(join(&words, " ").as_str())
}

} // verus!
