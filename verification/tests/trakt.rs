use tuliprox::trakt::{
    build_list_url, category_cluster, exact_matches, extract_year_from_title, get_cache_key,
    is_cache_valid_at, is_compatible_content_type, normalize_title_for_matching, rank_order,
    should_include_item, TraktContentType, TraktNormalizeConfig, XtreamCluster,
};

#[test]
fn test_normalize_title() {
    let config = TraktNormalizeConfig::standard().expect("the default pattern");
    assert_eq!(normalize_title_for_matching("The Matrix", &config), "the matrix");
    assert_eq!(normalize_title_for_matching("Spider-Man: No Way Home", &config), "spider man no way home");
    assert_eq!(normalize_title_for_matching("Élite", &config), "elite");
}

#[test]
fn titles_are_reduced_to_words() {
    let config = TraktNormalizeConfig::standard().expect("the default pattern");
    assert_eq!(normalize_title_for_matching("  WALL·E  (2008)!  ", &config), "wall e 2008");
    assert_eq!(normalize_title_for_matching("", &config), "");
    assert_eq!(normalize_title_for_matching(" \t ?! ", &config), "");
    assert_eq!(normalize_title_for_matching("a\tb\n\nc", &config), "a b c");
}

#[test]
fn exact_matches_are_the_items_with_the_same_id() {
    let ids = vec![Some(5), None, Some(7), Some(5), Some(6)];
    assert_eq!(exact_matches(5, &ids), vec![0, 3]);
    assert_eq!(exact_matches(7, &ids), vec![2]);
    assert!(exact_matches(1, &ids).is_empty());
    assert!(exact_matches(5, &vec![]).is_empty());
}

#[test]
fn matches_are_ordered_by_rank() {
    assert_eq!(
        rank_order(&vec![Some(3), None, Some(1), Some(3), Some(10000), Some(9999), Some(0)]),
        vec![6, 2, 0, 3, 1, 5, 4]
    );
    assert!(rank_order(&vec![]).is_empty());
}

#[test]
fn test_extract_year() {
    let (title, year) = extract_year_from_title("The Matrix (1999)");
    assert_eq!(title, "The Matrix");
    assert_eq!(year, Some(1999));

    let (title, year) = extract_year_from_title("Avengers Endgame 2019");
    assert_eq!(title, "Avengers Endgame");
    assert_eq!(year, Some(2019));

    let (title, year) = extract_year_from_title("Just a Title");
    assert_eq!(title, "Just a Title");
    assert_eq!(year, None);
}

#[test]
fn a_year_out_of_range_stays_in_the_title() {
    assert_eq!(extract_year_from_title("Blade Runner 2049"), ("Blade Runner".to_string(), Some(2049)));
    assert_eq!(extract_year_from_title("Metropolis 1899"), ("Metropolis 1899".to_string(), None));
    assert_eq!(extract_year_from_title("Odyssey 2101"), ("Odyssey 2101".to_string(), None));
    assert_eq!(extract_year_from_title("1900"), ("1900".to_string(), Some(1900)));
    assert_eq!(extract_year_from_title("2100"), ("2100".to_string(), Some(2100)));
    assert_eq!(extract_year_from_title("2001 (2001) 2001"), ("2001".to_string(), Some(2001)));
    assert_eq!(extract_year_from_title("(1999) first"), ("(1999) first".to_string(), None));
}

#[test]
fn items_belong_to_lists_of_their_kind() {
    let (vod, series, both) = (TraktContentType::Vod, TraktContentType::Series, TraktContentType::Both);
    assert!(should_include_item(vod, vod));
    assert!(!should_include_item(series, vod));
    assert!(!should_include_item(both, vod));
    assert!(should_include_item(series, series));
    assert!(!should_include_item(vod, series));
    for item in [vod, series, both] {
        assert!(should_include_item(item, both));
    }
}

#[test]
fn entries_match_lists_of_their_kind() {
    let (vod, series, both) = (TraktContentType::Vod, TraktContentType::Series, TraktContentType::Both);
    assert!(is_compatible_content_type(XtreamCluster::Video, vod));
    assert!(!is_compatible_content_type(XtreamCluster::Series, vod));
    assert!(!is_compatible_content_type(XtreamCluster::Live, vod));
    assert!(is_compatible_content_type(XtreamCluster::Series, series));
    assert!(!is_compatible_content_type(XtreamCluster::Video, series));
    assert!(is_compatible_content_type(XtreamCluster::Video, both));
    assert!(is_compatible_content_type(XtreamCluster::Series, both));
    assert!(!is_compatible_content_type(XtreamCluster::Live, both));
    assert_eq!(category_cluster(vod, Some(XtreamCluster::Series)), XtreamCluster::Video);
    assert_eq!(category_cluster(series, None), XtreamCluster::Series);
    assert_eq!(category_cluster(both, Some(XtreamCluster::Series)), XtreamCluster::Series);
    assert_eq!(category_cluster(both, None), XtreamCluster::Video);
}

#[test]
fn a_list_is_good_for_less_than_six_hours() {
    assert!(is_cache_valid_at(1000, 1000));
    assert!(is_cache_valid_at(1000 + 6 * 3600 - 1, 1000));
    assert!(!is_cache_valid_at(1000 + 6 * 3600, 1000));
}

#[test]
fn addresses_and_keys_are_put_together() {
    assert_eq!(
        build_list_url("https://api.trakt.tv", "me", "best"),
        "https://api.trakt.tv/users/me/lists/best/items"
    );
    assert_eq!(get_cache_key("me", "best"), "me:best");
}
