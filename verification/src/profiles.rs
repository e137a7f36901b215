//! The profiles of a subscription: group headers, numbering, listing and
//! selection by number.
use vstd::prelude::*;

use crate::json::{seq_view, Json, JsonValue};
use crate::subscription::{
    get_protocol, is_proxy_outbound, lemma_no_proxy_outbound, lemma_proxy_outbound_at, protocol_spec,
    proxy_at,
};
use crate::text::{has_prefix, starts_with, strip_prefixes, trim, trim_spec, trim_start_matches};

verus! {

/// The marker that begins the remarks of a group header.
pub open spec fn group_marker() -> Seq<char> {
    "⬣↓"@
}

/// A profile's remarks, or `"Unnamed"` where it has none.
pub open spec fn remarks_spec(profile: JsonValue) -> Seq<char> {
    match profile.str_member("remarks"@) {
        Some(r) => r,
        None => "Unnamed"@,
    }
}

/// A group header: an entry whose remarks begin with the group marker.
pub open spec fn is_header(profile: JsonValue) -> bool {
    has_prefix(remarks_spec(profile), group_marker())
}

/// The name of the group that a header's remarks open.
pub open spec fn group_name_spec(remarks: Seq<char>) -> Seq<char> {
    trim_spec(strip_prefixes(remarks, group_marker()))
}

/// How many of the entries `ps` are profiles (not group headers).
pub open spec fn count_profiles(ps: Seq<JsonValue>) -> nat
    decreases ps.len(),
{
    if ps.len() == 0 {
        0
    } else {
        count_profiles(ps.drop_last()) + if is_header(ps.last()) {
            0nat
        } else {
            1nat
        }
    }
}

/// The group in force after the entries `ps`: the one the last header
/// opened, or `"Ungrouped"`.
pub open spec fn group_after(ps: Seq<JsonValue>) -> Seq<char>
    decreases ps.len(),
{
    if ps.len() == 0 {
        "Ungrouped"@
    } else if is_header(ps.last()) {
        group_name_spec(remarks_spec(ps.last()))
    } else {
        group_after(ps.drop_last())
    }
}

/// The number that the listing gives the profile at position `i`.
pub open spec fn number_at(ps: Seq<JsonValue>, i: int) -> nat {
    count_profiles(ps.take(i + 1))
}

/// Position `i` holds the profile that the listing numbers `index`.
pub open spec fn numbered_at(ps: Seq<JsonValue>, index: int, i: int) -> bool {
    &&& 0 <= i < ps.len()
    &&& !is_header(ps[i])
    &&& number_at(ps, i) == index
}

/// Counting one more entry adds one exactly when that entry is a profile.
pub proof fn lemma_count_step(ps: Seq<JsonValue>, i: int)
    requires
        0 <= i < ps.len(),
    ensures
        count_profiles(ps.take(i + 1)) == count_profiles(ps.take(i)) + if is_header(ps[i]) {
            0nat
        } else {
            1nat
        },
{
    assert(ps.take(i + 1).drop_last() =~= ps.take(i));
}

/// Longer prefixes hold at least as many profiles, and no more than entries.
pub proof fn lemma_count_monotone(ps: Seq<JsonValue>, a: int, b: int)
    requires
        0 <= a <= b <= ps.len(),
    ensures
        count_profiles(ps.take(a)) <= count_profiles(ps.take(b)),
        count_profiles(ps.take(b)) <= count_profiles(ps.take(a)) + (b - a),
    decreases b - a,
{
    if a < b {
        lemma_count_monotone(ps, a, b - 1);
        lemma_count_step(ps, b - 1);
    }
}

/// No two profiles share a number.
pub proof fn numbers_are_unique(ps: Seq<JsonValue>, index: int, i: int, j: int)
    requires
        numbered_at(ps, index, i),
        numbered_at(ps, index, j),
    ensures
        i == j,
{
    if i < j {
        lemma_count_step(ps, j);
        lemma_count_monotone(ps, i + 1, j);
    } else if j < i {
        lemma_count_step(ps, i);
        lemma_count_monotone(ps, j + 1, i);
    }
}

proof fn lemma_number_reached(ps: Seq<JsonValue>, index: int, n: int) -> (i: int)
    requires
        0 <= n <= ps.len(),
        1 <= index <= count_profiles(ps.take(n)),
    ensures
        i < n,
        numbered_at(ps, index, i),
    decreases n,
{
    assert(ps.take(0) =~= Seq::<JsonValue>::empty());
    lemma_count_step(ps, n - 1);
    if count_profiles(ps.take(n - 1)) >= index {
        lemma_number_reached(ps, index, n - 1)
    } else {
        n - 1
    }
}

/// The numbers in use are exactly `1` to the number of profiles.
pub proof fn numbers_are_one_to_total(ps: Seq<JsonValue>, index: int)
    ensures
        (exists|i: int| numbered_at(ps, index, i)) <==> 1 <= index <= count_profiles(ps),
{
    assert(ps.take(ps.len() as int) =~= ps);
    if 1 <= index <= count_profiles(ps) {
        let i = lemma_number_reached(ps, index, ps.len() as int);
    }
    if exists|i: int| numbered_at(ps, index, i) {
        let i = choose|i: int| numbered_at(ps, index, i);
        lemma_count_step(ps, i);
        lemma_count_monotone(ps, 0, i);
        lemma_count_monotone(ps, i + 1, ps.len() as int);
        assert(ps.take(0) =~= Seq::<JsonValue>::empty());
    }
}

/// A profile's remarks, or `"Unnamed"` where it has none.
pub fn profile_remarks(profile: &Json) -> (r: &str)
    ensures
        r@ == remarks_spec(profile@),
{
    match profile.str_member("remarks") {
        Some(r) => r,
        None => "Unnamed",
    }
}

/// Whether remarks open a group.
pub fn is_group_header(remarks: &str) -> (r: bool)
    ensures
        r == has_prefix(remarks@, group_marker()),
{
    starts_with(remarks, "⬣↓")
}

/// The group name that a header's remarks give: the text after the group
/// markers, trimmed.
pub fn group_name(remarks: &str) -> (r: String)
    ensures
        r@ == group_name_spec(remarks@),
{
    String::from_str(trim(trim_start_matches(remarks, "⬣↓")))
}

/// Finds the position of the profile that the listing numbers `index`.
pub fn select_profile(profiles: &Vec<Json>, index: usize) -> (r: Option<usize>)
    ensures
        match r {
            Some(i) => numbered_at(seq_view(profiles@), index as int, i as int),
            None => forall|i: int| !numbered_at(seq_view(profiles@), index as int, i),
        },
{
    let ghost ps = seq_view(profiles@);
    let mut count: usize = 0;
    let mut i: usize = 0;
    assert(ps.take(0) =~= Seq::<JsonValue>::empty());
    while i < profiles.len()
        invariant
            ps == seq_view(profiles@),
            i <= profiles.len(),
            count == count_profiles(ps.take(i as int)),
            count <= i,
            forall|j: int| 0 <= j < i ==> !numbered_at(ps, index as int, j),
        decreases profiles.len() - i,
    {
        assert(ps.take(i + 1).drop_last() =~= ps.take(i as int));
        let remarks = profile_remarks(&profiles[i]);
        if !is_group_header(remarks) {
            count = count + 1;
            if count == index {
                return Some(i);
            }
        }
        i = i + 1;
    }
    assert forall|j: int| !numbered_at(ps, index as int, j) by {
    }
    None
}


/// One line of the profile listing: a group heading, or a numbered profile
/// with its group.
#[derive(Debug)]
pub enum ListingLine {
    Group(String),
    Profile { number: usize, remarks: String, protocol: String, group: String },
}

/// The mathematical model of a [`ListingLine`].
pub enum LineView {
    Group(Seq<char>),
    Profile { number: nat, remarks: Seq<char>, protocol: Seq<char>, group: Seq<char> },
}

impl View for ListingLine {
    type V = LineView;

    open spec fn view(&self) -> LineView {
        match self {
            ListingLine::Group(g) => LineView::Group(g@),
            ListingLine::Profile { number, remarks, protocol, group } => LineView::Profile {
                number: *number as nat,
                remarks: remarks@,
                protocol: protocol@,
                group: group@,
            },
        }
    }
}

/// The listing line for the entry at position `i`.
pub open spec fn line_spec(ps: Seq<JsonValue>, i: int) -> LineView {
    if is_header(ps[i]) {
        LineView::Group(group_name_spec(remarks_spec(ps[i])))
    } else {
        LineView::Profile {
            number: number_at(ps, i),
            remarks: remarks_spec(ps[i]),
            protocol: protocol_spec(ps[i]),
            group: group_after(ps.take(i)),
        }
    }
}

/// The listing of a subscription: one line per entry, and how many profiles
/// there are.
#[derive(Debug)]
pub struct ProfileListing {
    pub lines: Vec<ListingLine>,
    pub total: usize,
}

/// Lists the entries of a subscription in order: each group header opens a
/// group, and each profile gets the next number, starting from 1.
pub fn list_profiles(profiles: &Vec<Json>) -> (r: ProfileListing)
    ensures
        r.lines@.len() == profiles@.len(),
        forall|i: int| 0 <= i < profiles@.len() ==> #[trigger] r.lines@[i]@ == line_spec(seq_view(profiles@), i),
        r.total == count_profiles(seq_view(profiles@)),
{
    let ghost ps = seq_view(profiles@);
    let mut lines: Vec<ListingLine> = Vec::new();
    let mut count: usize = 0;
    let mut current_group = String::from_str("Ungrouped");
    let mut i: usize = 0;
    assert(ps.take(0) =~= Seq::<JsonValue>::empty());
    while i < profiles.len()
        invariant
            ps == seq_view(profiles@),
            i <= profiles.len(),
            count == count_profiles(ps.take(i as int)),
            count <= i,
            current_group@ == group_after(ps.take(i as int)),
            lines@.len() == i,
            forall|j: int| 0 <= j < i ==> #[trigger] lines@[j]@ == line_spec(ps, j),
        decreases profiles.len() - i,
    {
        assert(ps.take(i + 1).drop_last() =~= ps.take(i as int));
        let remarks = profile_remarks(&profiles[i]);
        if is_group_header(remarks) {
            current_group = group_name(remarks);
            lines.push(ListingLine::Group(current_group.clone()));
        } else {
            count = count + 1;
            let protocol = get_protocol(&profiles[i]);
            lines.push(
                ListingLine::Profile {
                    number: count,
                    remarks: String::from_str(remarks),
                    protocol: String::from_str(protocol),
                    group: current_group.clone(),
                },
            );
        }
        i = i + 1;
    }
    assert(ps.take(profiles.len() as int) =~= ps);
    ProfileListing { lines, total: count }
}

/// The profile that the listing shows as number `k` is the one, and the only
/// one, that selecting number `k` finds.
pub proof fn listed_number_selects_that_profile(ps: Seq<JsonValue>, i: int)
    requires
        0 <= i < ps.len(),
        line_spec(ps, i) is Profile,
    ensures
        forall|j: int| numbered_at(ps, line_spec(ps, i)->number as int, j) <==> j == i,
{
    let k = line_spec(ps, i)->number as int;
    assert(numbered_at(ps, k, i));
    assert forall|j: int| numbered_at(ps, k, j) implies j == i by {
        numbers_are_unique(ps, k, i, j);
    }
}

/// The listing shows a profile's proxy protocol: the `protocol` of its first
/// outbound tagged `"proxy"`, whatever other outbounds there are (`unknown`
/// where that outbound names none), and `unknown` where no outbound is
/// tagged `"proxy"`.
pub proof fn listing_shows_the_proxy_protocol(ps: Seq<JsonValue>, i: int)
    requires
        0 <= i < ps.len(),
        !is_header(ps[i]),
    ensures
        line_spec(ps, i) is Profile,
        forall|s: Seq<JsonValue>, j: int|
            ps[i].get("outbounds"@) == Some(JsonValue::Array(s)) && #[trigger] proxy_at(s, j)
                ==> line_spec(ps, i)->protocol == match s[j].str_member("protocol"@) {
                Some(p) => p,
                None => "unknown"@,
            },
        (forall|s: Seq<JsonValue>, j: int|
            ps[i].get("outbounds"@) == Some(JsonValue::Array(s)) && 0 <= j < s.len()
                ==> !is_proxy_outbound(#[trigger] s[j])) ==> line_spec(ps, i)->protocol
            == "unknown"@,
{
    assert forall|s: Seq<JsonValue>, j: int|
        ps[i].get("outbounds"@) == Some(JsonValue::Array(s)) && #[trigger] proxy_at(s, j)
            implies line_spec(ps, i)->protocol == match s[j].str_member("protocol"@) {
            Some(p) => p,
            None => "unknown"@,
        } by {
        lemma_proxy_outbound_at(ps[i], s, j);
    }
    if forall|s: Seq<JsonValue>, j: int|
        ps[i].get("outbounds"@) == Some(JsonValue::Array(s)) && 0 <= j < s.len()
            ==> !is_proxy_outbound(#[trigger] s[j]) {
        lemma_no_proxy_outbound(ps[i]);
    }
}

/// An entry is a group header exactly when its remarks (`Unnamed` where it
/// has none) begin with `⬣↓`; the listing shows a profile with its own
/// remarks, and as `Unnamed` where it has none.
pub proof fn listing_shows_remarks(ps: Seq<JsonValue>, i: int)
    requires
        0 <= i < ps.len(),
    ensures
        ({
            let r = match ps[i].str_member("remarks"@) {
                Some(r) => r,
                None => "Unnamed"@,
            };
            &&& is_header(ps[i]) <==> (r.len() >= 2 && r[0] == '⬣' && r[1] == '↓')
            &&& !is_header(ps[i]) ==> (line_spec(ps, i) matches LineView::Profile { remarks, .. }
                && remarks == r)
        }),
{
    reveal_strlit("⬣↓");
    let r = remarks_spec(ps[i]);
    assert(group_marker().len() == 2 && group_marker()[0] == '⬣' && group_marker()[1] == '↓');
    if r.len() >= 2 && r[0] == '⬣' && r[1] == '↓' {
        assert(r.subrange(0, 2) =~= group_marker());
    }
    if is_header(ps[i]) {
        assert(r.subrange(0, 2)[0] == r[0] && r.subrange(0, 2)[1] == r[1]);
    }
}

/// The group in force after the entries `ps.take(i)` is the one that the
/// header at `h` opened, where no header stands between `h` and `i`.
proof fn lemma_group_of_nearest_header(ps: Seq<JsonValue>, h: int, i: int)
    requires
        0 <= h < i <= ps.len(),
        is_header(ps[h]),
        forall|m: int| h < m < i ==> !is_header(#[trigger] ps[m]),
    ensures
        group_after(ps.take(i)) == group_name_spec(remarks_spec(ps[h])),
    decreases i,
{
    assert(ps.take(i).last() == ps[i - 1]);
    assert(ps.take(i).drop_last() =~= ps.take(i - 1));
    if i - 1 > h {
        assert(!is_header(ps[i - 1]));
        lemma_group_of_nearest_header(ps, h, i - 1);
    }
}

/// The group in force after entries none of which is a header.
proof fn lemma_ungrouped(ps: Seq<JsonValue>, i: int)
    requires
        0 <= i <= ps.len(),
        forall|m: int| 0 <= m < i ==> !is_header(#[trigger] ps[m]),
    ensures
        group_after(ps.take(i)) == "Ungrouped"@,
    decreases i,
{
    if i > 0 {
        assert(ps.take(i).last() == ps[i - 1]);
        assert(ps.take(i).drop_last() =~= ps.take(i - 1));
        assert(!is_header(ps[i - 1]));
        lemma_ungrouped(ps, i - 1);
    }
}

/// The listing puts a profile in the group of the nearest group header
/// before it, and in `Ungrouped` where no header comes before it.
pub proof fn listing_groups_by_nearest_header(ps: Seq<JsonValue>, i: int)
    requires
        0 <= i < ps.len(),
        !is_header(ps[i]),
    ensures
        forall|h: int|
            0 <= h < i && #[trigger] is_header(ps[h]) && (forall|m: int| h < m < i ==> !is_header(#[trigger] ps[m]))
                ==> line_spec(ps, i)->group == group_name_spec(remarks_spec(ps[h])),
        (forall|m: int| 0 <= m < i ==> !is_header(#[trigger] ps[m])) ==> line_spec(ps, i)->group
            == "Ungrouped"@,
{
    assert forall|h: int|
        0 <= h < i && #[trigger] is_header(ps[h]) && (forall|m: int| h < m < i ==> !is_header(#[trigger] ps[m]))
            implies line_spec(ps, i)->group == group_name_spec(remarks_spec(ps[h])) by {
        lemma_group_of_nearest_header(ps, h, i);
    }
    if forall|m: int| 0 <= m < i ==> !is_header(#[trigger] ps[m]) {
        lemma_ungrouped(ps, i);
    }
}

/// The entries that the debug view prints: the second and the third, by
/// position, with the one-based number that it shows for them.
pub open spec fn debug_positions(len: nat) -> Seq<nat> {
    if len >= 3 {
        seq![1nat, 2nat]
    } else if len == 2 {
        seq![1nat]
    } else {
        seq![]
    }
}

/// The positions of the entries that the debug view prints.
pub fn debug_profiles(profiles: &Vec<Json>) -> (r: Vec<usize>)
    ensures
        r@.len() == debug_positions(profiles@.len()).len(),
        forall|k: int| 0 <= k < r@.len() ==> #[trigger] r@[k] as nat == debug_positions(profiles@.len())[k],
{
    let mut r: Vec<usize> = Vec::new();
    let mut index: usize = 0;
    while index < profiles.len()
        invariant
            index <= profiles.len(),
            r@ == (if index >= 3 { seq![1usize, 2usize] } else if index == 2 { seq![1usize] } else { seq![] }),
        decreases profiles.len() - index,
    {
        if index == 1 || index == 2 {
            r.push(index);
        }
        index = index + 1;
    }
    r
}

} // verus!
