use quaso::tag::Tag;

#[test]
fn test_tag() {
    let tag = Tag::new("abra.ca.dabra");
    assert_eq!(tag.fragment(0), "abra");
    assert_eq!(tag.fragment(1), "abra");
    assert_eq!(tag.fragment(2), "abra.ca");
    assert_eq!(tag.fragment(3), "abra.ca.dabra");
    assert_eq!(tag.fragment(4), "abra.ca.dabra");
    assert_eq!(tag.as_str(), "abra.ca.dabra");
    assert_eq!(tag, tag.as_str().parse::<Tag>().unwrap());
    assert_eq!(tag.parent_fragment(), "abra.ca");
    assert_eq!(tag.parent(), Tag::new("abra.ca"));
    assert_eq!(tag.parent().parent(), Tag::new("abra"));
    assert_eq!(tag.parent().push("foo"), Tag::new("abra.ca.foo"));
    assert_eq!(tag.shared_parts(&Tag::new("abra.ca.foo")), 2);
    assert_eq!(tag.shared_parts(&Tag::new("abra.ca")), 2);
    assert_eq!(tag.shared_parts(&Tag::new("abra.foo")), 1);
    assert_eq!(tag.shared_parts(&Tag::new("foo")), 0);
    assert_eq!(tag.shared_parts(&Tag::new("abra.ca.dabra.foo")), 3);
    assert!(tag.is_subset_of(&Tag::new("abra.ca.dabra")));
    assert!(tag.is_subset_of(&Tag::new("abra.ca.dabra.foo")));
    assert!(!tag.is_subset_of(&Tag::new("abra.ca")));
    assert!(!tag.is_subset_of(&Tag::new("abra.ca.foo")));
    assert!(tag.is_superset_of(&Tag::new("abra.ca.dabra")));
    assert!(!tag.is_superset_of(&Tag::new("abra.ca.dabra.foo")));
    assert!(tag.is_superset_of(&Tag::new("abra.ca")));
    assert!(!tag.is_superset_of(&Tag::new("abra.ca.foo")));
    assert!(Tag::new("abra.ca.dabra").matches(&tag));
    assert!(!Tag::new("abra.ca.dabra.foo").matches(&tag));
    assert!(Tag::new("abra.ca").matches(&tag));
    assert!(!Tag::new("abra.ca.foo").matches(&tag));
    assert!(Tag::new("abra").matches(&tag));
    assert!(!Tag::new("abra.foo").matches(&tag));
    assert!(!Tag::new("foo").matches(&tag));
    assert!(Tag::new("abra.ca.*").matches(&tag));
    assert!(!Tag::new("foo.ca.*").matches(&tag));
    assert!(Tag::new("abra.*.dabra").matches(&tag));
    assert!(!Tag::new("abra.*.foo").matches(&tag));
    assert!(Tag::new("*.ca.dabra").matches(&tag));
    assert!(!Tag::new("*.foo.dabra").matches(&tag));
}

#[test]
fn test_tag_parts_and_lookup() {
    let tag = Tag::new("abra.ca.dabra");
    assert_eq!(tag.len(), 3);
    assert!(!tag.is_empty());
    let parts = tag.parts();
    assert_eq!(parts.len(), 3);
    assert_eq!(parts[0], "abra");
    assert_eq!(parts[1], "ca");
    assert_eq!(parts[2], "dabra");
    assert_eq!(tag.part(0).unwrap(), "abra");
    assert_eq!(tag.part(2).unwrap(), "dabra");
    assert!(tag.part(3).is_none());
    let empty = Tag::default();
    assert!(empty.is_empty());
    assert_eq!(empty.len(), 0);
    let single = Tag::new("");
    assert_eq!(single.len(), 1);
    assert_eq!(single.part(0).unwrap(), "");
}

#[test]
fn test_tags_collection() {
    let tags = quaso::tag::Tags::default()
        .with(Tag::new("player.body"))
        .with(Tag::new("player.sword"))
        .with(Tag::new("enemy.axe"))
        .with(Tag::new("player.body"));
    let patterns = quaso::tag::Tags::default().with(Tag::new("player.*"));
    assert!(tags.matches_any(&Tag::new("player.body")));
    assert!(!tags.matches_any(&Tag::new("bystander")));
    assert!(patterns.matches_all(&Tag::new("player.sword")));
    assert!(!patterns.matches_all(&Tag::new("enemy.axe")));
    let kept = tags.matching_union_any(&patterns);
    let kept_names: Vec<String> =
        kept.clone().matching_any_iter(&patterns).iter().map(|t| t.as_str().to_owned()).collect();
    assert_eq!(kept_names, vec!["player.body".to_owned(), "player.sword".to_owned()]);
    let dropped = tags.matching_difference_any(&patterns);
    let dropped_names: Vec<String> =
        dropped.matching_all_iter(&quaso::tag::Tags::default()).iter().map(|t| t.as_str().to_owned()).collect();
    assert_eq!(dropped_names, vec!["enemy.axe".to_owned()]);
    let all = tags.matching_union_all(&quaso::tag::Tags::default());
    assert!(all.matches_any(&Tag::new("enemy.axe")));
    let none = tags.matching_difference_all(&quaso::tag::Tags::default());
    assert!(!none.matches_any(&Tag::new("enemy.axe")));
}
