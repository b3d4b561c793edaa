use next_app::page::AppPage;
use next_app::path::AppPath;
use next_app::path::PathSegment;
use next_app::segment::PageSegment;
use next_app::segment::PageType;
use next_app::segment::SegmentError;

#[test]
fn parse_empty_token_fails() {
    assert_eq!(PageSegment::parse(""), Err(SegmentError::EmptySegment));
}

#[test]
fn parse_token_with_slash_fails() {
    assert_eq!(PageSegment::parse("a/b"), Err(SegmentError::IllegalSlash));
    assert_eq!(PageSegment::parse("/"), Err(SegmentError::IllegalSlash));
}

#[test]
fn parse_group() {
    assert_eq!(
        PageSegment::parse("(x)"),
        Ok(PageSegment::Group("x".to_string()))
    );
    assert_eq!(
        PageSegment::parse("()"),
        Ok(PageSegment::Group("".to_string()))
    );
}

#[test]
fn parse_parallel() {
    assert_eq!(
        PageSegment::parse("@x"),
        Ok(PageSegment::Parallel("x".to_string()))
    );
    assert_eq!(
        PageSegment::parse("@"),
        Ok(PageSegment::Parallel("".to_string()))
    );
}

#[test]
fn parse_optional_catch_all() {
    assert_eq!(
        PageSegment::parse("[[...x]]"),
        Ok(PageSegment::OptionalCatchAll("x".to_string()))
    );
    assert_eq!(
        PageSegment::parse("[[...]]"),
        Ok(PageSegment::OptionalCatchAll("".to_string()))
    );
}

#[test]
fn parse_catch_all() {
    assert_eq!(
        PageSegment::parse("[...x]"),
        Ok(PageSegment::CatchAll("x".to_string()))
    );
    assert_eq!(
        PageSegment::parse("[...]"),
        Ok(PageSegment::CatchAll("".to_string()))
    );
}

#[test]
fn parse_dynamic() {
    assert_eq!(
        PageSegment::parse("[x]"),
        Ok(PageSegment::Dynamic("x".to_string()))
    );
}

#[test]
fn parse_static() {
    assert_eq!(
        PageSegment::parse("x"),
        Ok(PageSegment::Static("x".to_string()))
    );
}

#[test]
fn parse_malformed_brackets_fall_back_to_static() {
    assert_eq!(
        PageSegment::parse("[x"),
        Ok(PageSegment::Static("[x".to_string()))
    );
    assert_eq!(
        PageSegment::parse("x]"),
        Ok(PageSegment::Static("x]".to_string()))
    );
    assert_eq!(
        PageSegment::parse("[..."),
        Ok(PageSegment::Static("[...".to_string()))
    );
}

#[test]
fn parse_precedence_on_overlapping_prefixes() {
    // An unmatched double bracket is not an optional catch-all; the dynamic
    // shape picks it up with the inner brackets kept in the name.
    assert_eq!(
        PageSegment::parse("[[...x]"),
        Ok(PageSegment::Dynamic("[...x".to_string()))
    );
    assert_eq!(
        PageSegment::parse("[...x]]"),
        Ok(PageSegment::CatchAll("x]".to_string()))
    );
    assert_eq!(
        PageSegment::parse("[[x]]"),
        Ok(PageSegment::Dynamic("[x]".to_string()))
    );
}

#[test]
fn render_each_shape() {
    assert_eq!(PageSegment::Static("x".to_string()).render(), "x");
    assert_eq!(PageSegment::Dynamic("x".to_string()).render(), "[x]");
    assert_eq!(PageSegment::CatchAll("x".to_string()).render(), "[...x]");
    assert_eq!(
        PageSegment::OptionalCatchAll("x".to_string()).render(),
        "[[...x]]"
    );
    assert_eq!(PageSegment::Group("x".to_string()).render(), "(x)");
    assert_eq!(PageSegment::Parallel("x".to_string()).render(), "@x");
    assert_eq!(PageSegment::PageType(PageType::Page).render(), "page");
    assert_eq!(PageSegment::PageType(PageType::Route).render(), "route");
}

#[test]
fn render_inverts_parse() {
    for token in [
        "x", "[x]", "[...x]", "[[...x]]", "(x)", "@x", "()", "@", "[x", "x]", "page", "route",
        "[[...x]", "[...x]]", "[[x]]", "a-b.c",
    ] {
        let seg = PageSegment::parse(token).unwrap();
        assert_eq!(seg.render(), token);
    }
}

#[test]
fn push_after_catch_all_fails() {
    let mut page = AppPage::new();
    assert_eq!(page.push(PageSegment::CatchAll("a".to_string())), Ok(()));
    assert_eq!(
        page.push(PageSegment::Static("b".to_string())),
        Err(SegmentError::InvalidAppend)
    );
    // The failed append left the container as it was.
    assert_eq!(page.render(), "/[...a]");
}

#[test]
fn push_page_type_after_catch_all_succeeds() {
    let mut page = AppPage::new();
    assert_eq!(page.push(PageSegment::CatchAll("a".to_string())), Ok(()));
    assert_eq!(page.push(PageSegment::PageType(PageType::Page)), Ok(()));
    assert_eq!(page.render(), "/[...a]/page");
}

#[test]
fn push_after_optional_catch_all_fails() {
    let mut page = AppPage::new();
    assert_eq!(
        page.push(PageSegment::OptionalCatchAll("a".to_string())),
        Ok(())
    );
    assert_eq!(
        page.push(PageSegment::Dynamic("b".to_string())),
        Err(SegmentError::InvalidAppend)
    );
}

#[test]
fn push_str_empty_token_is_a_no_op() {
    let mut page = AppPage::new();
    assert_eq!(page.push_str(""), Ok(()));
    assert_eq!(page.render(), "/");
}

#[test]
fn push_str_parses_and_appends() {
    let mut page = AppPage::new();
    assert_eq!(page.push_str("blog"), Ok(()));
    assert_eq!(page.push_str("[id]"), Ok(()));
    assert_eq!(page.render(), "/blog/[id]");
    assert_eq!(page.push_str("a/b"), Err(SegmentError::IllegalSlash));
    assert_eq!(page.render(), "/blog/[id]");
}

#[test]
fn clone_push_leaves_receiver_untouched() {
    let mut page = AppPage::new();
    page.push(PageSegment::Static("a".to_string())).unwrap();
    let longer = page
        .clone_push(PageSegment::Dynamic("b".to_string()))
        .unwrap();
    assert_eq!(page.render(), "/a");
    assert_eq!(longer.render(), "/a/[b]");
    let mut blocked = page.clone();
    blocked
        .push(PageSegment::CatchAll("c".to_string()))
        .unwrap();
    assert_eq!(
        blocked.clone_push(PageSegment::Static("d".to_string())),
        Err(SegmentError::InvalidAppend)
    );
    assert_eq!(blocked.render(), "/a/[...c]");
}

#[test]
fn clone_push_str_leaves_receiver_untouched() {
    let mut page = AppPage::new();
    page.push_str("a").unwrap();
    let longer = page.clone_push_str("(g)").unwrap();
    assert_eq!(page.render(), "/a");
    assert_eq!(longer.render(), "/a/(g)");
    assert_eq!(
        page.clone_push_str("b/c"),
        Err(SegmentError::IllegalSlash)
    );
}

#[test]
fn parse_path_round_trips_through_the_container() {
    let page = AppPage::parse("/blog/[...slug]").unwrap();
    assert_eq!(page.render(), "/blog/[...slug]");
}

#[test]
fn parse_path_ignores_leading_and_trailing_separators() {
    let page = AppPage::parse("blog/[id]/").unwrap();
    assert_eq!(page.render(), "/blog/[id]");
    let empty = AppPage::parse("").unwrap();
    assert_eq!(empty.render(), "/");
    let bare = AppPage::parse("/").unwrap();
    assert_eq!(bare.render(), "/");
}

#[test]
fn parse_path_propagates_the_first_failing_append() {
    assert_eq!(
        AppPage::parse("/[...a]/b"),
        Err(SegmentError::InvalidAppend)
    );
}

#[test]
fn derive_keeps_routable_segments_in_order() {
    let mut page = AppPage::parse("/(group)/[id]").unwrap();
    page.push(PageSegment::PageType(PageType::Page)).unwrap();
    assert_eq!(page.render(), "/(group)/[id]/page");
    let path = AppPath::from_page(&page);
    assert_eq!(path.render(), "/[id]");
    assert_eq!(path.0, vec![PathSegment::Dynamic("id".to_string())]);
}

#[test]
fn derive_drops_every_modifier() {
    let mut page = AppPage::parse("/@slot/(g)/a/[b]/[...c]").unwrap();
    page.push(PageSegment::PageType(PageType::Route)).unwrap();
    let path = AppPath::from_page(&page);
    assert_eq!(path.render(), "/a/[b]/[...c]");
    // Deriving is pure and repeatable: the page is untouched.
    assert_eq!(page.render(), "/@slot/(g)/a/[b]/[...c]/route");
    let again = AppPath::from_page(&page);
    assert_eq!(again, path);
}

#[test]
fn empty_containers_render_as_the_bare_separator() {
    let page = AppPage::new();
    assert_eq!(page.render(), "/");
    let path = AppPath::from_page(&page);
    assert_eq!(path.render(), "/");
    assert_eq!(AppPath::default().render(), "/");
    assert_eq!(AppPage::default().render(), "/");
}

#[test]
fn containers_compare_and_clone_structurally() {
    let a = AppPage::parse("/x/[y]").unwrap();
    let b = AppPage::parse("/x/[y]").unwrap();
    let c = AppPage::parse("/x/[z]").unwrap();
    assert_eq!(a, b);
    assert_ne!(a, c);
    assert_eq!(a.clone(), a);
    let pa = AppPath::from_page(&a);
    assert_eq!(pa.clone(), pa);
}
