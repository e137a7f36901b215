use xrayctl::json::Json;
use xrayctl::profiles::{
    debug_profiles, group_name, is_group_header, list_profiles, profile_remarks, select_profile,
    ListingLine,
};

fn text(t: &str) -> Json {
    Json::String(t.to_string())
}

fn obj(members: Vec<(&str, Json)>) -> Json {
    Json::Object(members.into_iter().map(|(k, v)| (k.to_string(), v)).collect())
}

fn entry(remarks: &str, protocol: &str) -> Json {
    obj(vec![
        ("remarks", text(remarks)),
        (
            "outbounds",
            Json::Array(vec![obj(vec![("tag", text("proxy")), ("protocol", text(protocol))])]),
        ),
    ])
}

fn header(remarks: &str) -> Json {
    obj(vec![("remarks", text(remarks))])
}

/// The subscription of the README's example listing.
fn readme_subscription() -> Vec<Json> {
    vec![
        header("⬣↓ Finland"),
        entry("🇫🇮 Finland", "hysteria"),
        entry("🇫🇮 Finland", "vless"),
        header("⬣↓Germany  "),
        entry("🇩🇪 Germany", "vless"),
    ]
}

fn profile_line(line: &ListingLine) -> (usize, String, String, String) {
    match line {
        ListingLine::Profile { number, remarks, protocol, group } => {
            (*number, remarks.clone(), protocol.clone(), group.clone())
        }
        ListingLine::Group(g) => panic!("unexpected group {g}"),
    }
}

#[test]
fn readme_listing() {
    let profiles = readme_subscription();
    let listing = list_profiles(&profiles);
    assert_eq!(listing.total, 3);
    assert_eq!(listing.lines.len(), 5);
    assert!(matches!(&listing.lines[0], ListingLine::Group(g) if g == "Finland"));
    assert_eq!(
        profile_line(&listing.lines[1]),
        (1, "🇫🇮 Finland".to_string(), "hysteria".to_string(), "Finland".to_string())
    );
    assert_eq!(
        profile_line(&listing.lines[2]),
        (2, "🇫🇮 Finland".to_string(), "vless".to_string(), "Finland".to_string())
    );
    assert!(matches!(&listing.lines[3], ListingLine::Group(g) if g == "Germany"));
    assert_eq!(
        profile_line(&listing.lines[4]),
        (3, "🇩🇪 Germany".to_string(), "vless".to_string(), "Germany".to_string())
    );
}

#[test]
fn profiles_before_any_header_are_ungrouped_and_unnamed() {
    let profiles = vec![obj(vec![]), header("⬣↓A")];
    let listing = list_profiles(&profiles);
    assert_eq!(
        profile_line(&listing.lines[0]),
        (1, "Unnamed".to_string(), "unknown".to_string(), "Ungrouped".to_string())
    );
    assert_eq!(listing.total, 1);
}

#[test]
fn selection_uses_the_listed_numbers() {
    let profiles = readme_subscription();
    assert_eq!(select_profile(&profiles, 1), Some(1));
    assert_eq!(select_profile(&profiles, 2), Some(2));
    assert_eq!(select_profile(&profiles, 3), Some(4));
    assert_eq!(select_profile(&profiles, 0), None);
    assert_eq!(select_profile(&profiles, 4), None);
    let listing = list_profiles(&profiles);
    for (position, line) in listing.lines.iter().enumerate() {
        if let ListingLine::Profile { number, .. } = line {
            assert_eq!(select_profile(&profiles, *number), Some(position));
        }
    }
}

#[test]
fn group_headers_and_names() {
    assert!(is_group_header("⬣↓ Finland"));
    assert!(!is_group_header("Finland ⬣↓"));
    assert!(!is_group_header("⬣"));
    assert_eq!(group_name("⬣↓⬣↓  Netherlands \t"), "Netherlands");
    assert_eq!(group_name("⬣↓"), "");
}

#[test]
fn remarks_default_to_unnamed() {
    assert_eq!(profile_remarks(&header("x")), "x");
    assert_eq!(profile_remarks(&obj(vec![("remarks", Json::Null)])), "Unnamed");
}

#[test]
fn debug_view_shows_the_second_and_third_entries() {
    let profiles = readme_subscription();
    assert_eq!(debug_profiles(&profiles), vec![1, 2]);
    assert_eq!(debug_profiles(&profiles[..2].iter().map(|_| Json::Null).collect()), vec![1]);
    assert_eq!(debug_profiles(&vec![Json::Null]), Vec::<usize>::new());
}
