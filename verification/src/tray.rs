//! What the tray menu shows and what its items do.

use vstd::prelude::*;
use vstd::string::*;

use crate::format::{bytes_text, format_bytes};
use crate::text::{decimal, has_prefix, push_decimal, str_eq, str_starts_with};
use crate::tunnel::{TunnelState, TunnelStatus};

verus! {

/// The mark before a tunnel's name: filled while running, half while
/// starting or reconnecting, hollow otherwise.
pub open spec fn state_icon(s: TunnelState) -> Seq<char> {
    match s {
        TunnelState::Running => "●"@,
        TunnelState::Starting | TunnelState::Reconnecting => "◐"@,
        _ => "○"@,
    }
}

/// The menu label of a tunnel: its mark and name, followed by the bytes
/// sent and received when its counters are shown.
pub open spec fn status_label(st: TunnelStatus) -> Seq<char> {
    match st.stats {
        Some(snap) => state_icon(st.state) + " "@ + st.name@ + "  ↑ "@ + bytes_text(
            snap.bytes_uploaded as nat,
        ) + "  ↓ "@ + bytes_text(snap.bytes_downloaded as nat),
        None => state_icon(st.state) + " "@ + st.name@,
    }
}

/// Builds the menu label of a tunnel.
pub fn format_status_label(status: &TunnelStatus) -> (r: String)
    ensures
        r@ == status_label(*status),
{
    let mut r = match &status.state {
        TunnelState::Running => String::from_str("●"),
        TunnelState::Starting | TunnelState::Reconnecting => String::from_str("◐"),
        _ => String::from_str("○"),
    };
    r.append(" ");
    r.append(status.name.as_str());
    match &status.stats {
        Some(snap) => {
            r.append("  ↑ ");
            let up = format_bytes(snap.bytes_uploaded);
            r.append(up.as_str());
            r.append("  ↓ ");
            let down = format_bytes(snap.bytes_downloaded);
            r.append(down.as_str());
        },
        None => {},
    }
    r
}

/// The labels of the tunnels, in order.
pub fn status_labels(statuses: &[TunnelStatus]) -> (r: Vec<String>)
    ensures
        r@.len() == statuses@.len(),
        forall|i: int| 0 <= i < statuses@.len() ==> (#[trigger] r@[i])@ == status_label(statuses@[i]),
{
    let mut r: Vec<String> = Vec::new();
    let n = statuses.len();
    let mut i: usize = 0;
    while i < n
        invariant
            n == statuses@.len(),
            i <= n,
            r@.len() == i,
            forall|j: int| 0 <= j < i ==> (#[trigger] r@[j])@ == status_label(statuses@[j]),
        decreases n - i,
    {
        r.push(format_status_label(&statuses[i]));
        i = i + 1;
    }
    r
}

/// The texts of a list of labels.
pub open spec fn label_texts(v: Seq<String>) -> Seq<Seq<char>> {
    v.map_values(|s: String| s@)
}

/// Whether the menu must be rebuilt: the tunnel labels or the error count
/// differ from those it shows.
pub fn menu_changed(shown_labels: &[String], shown_error_count: usize, labels: &[String], error_count: usize) -> (r: bool)
    ensures
        r == !(label_texts(shown_labels@) == label_texts(labels@) && shown_error_count == error_count),
{
    if shown_error_count != error_count {
        return true;
    }
    let n = labels.len();
    if shown_labels.len() != n {
        assert(label_texts(shown_labels@).len() != label_texts(labels@).len());
        return true;
    }
    let mut i: usize = 0;
    while i < n
        invariant
            n == labels@.len(),
            n == shown_labels@.len(),
            i <= n,
            forall|j: int| 0 <= j < i ==> shown_labels@[j]@ == labels@[j]@,
        decreases n - i,
    {
        if !(shown_labels[i] == labels[i]) {
            assert(label_texts(shown_labels@)[i as int] != label_texts(labels@)[i as int]);
            return true;
        }
        i = i + 1;
    }
    assert(label_texts(shown_labels@) =~= label_texts(labels@));
    false
}

/// The label of the errors item: the count, with "error" in the singular
/// for one.
pub open spec fn error_label(count: usize) -> Seq<char> {
    "⚠ "@ + decimal(count as nat) + if count == 1 {
        " error"@
    } else {
        " errors"@
    }
}

/// Builds the label of the errors item.
pub fn error_menu_label(count: usize) -> (r: String)
    ensures
        r@ == error_label(count),
{
    let mut r = String::from_str("⚠ ");
    push_decimal(&mut r, count as u64);
    if count == 1 {
        r.append(" error");
    } else {
        r.append(" errors");
    }
    r
}

/// The menu id of a tunnel's item.
pub open spec fn tunnel_item_id(id: Seq<char>) -> Seq<char> {
    "tunnel:"@ + id
}

/// Builds the menu id of a tunnel's item.
pub fn tunnel_menu_id(id: &str) -> (r: String)
    ensures
        r@ == tunnel_item_id(id@),
{
    let mut r = String::from_str("tunnel:");
    r.append(id);
    r
}

/// One entry of the tray menu.
#[derive(Debug)]
pub enum MenuEntry {
    Item { id: String, label: String, enabled: bool },
    Separator,
}

/// What an entry of the tray menu is.
pub enum MenuEntryView {
    Item { id: Seq<char>, label: Seq<char>, enabled: bool },
    Separator,
}

impl View for MenuEntry {
    type V = MenuEntryView;

    open spec fn view(&self) -> MenuEntryView {
        match self {
            MenuEntry::Item { id, label, enabled } => MenuEntryView::Item {
                id: id@,
                label: label@,
                enabled: *enabled,
            },
            MenuEntry::Separator => MenuEntryView::Separator,
        }
    }
}

pub open spec fn item(id: Seq<char>, label: Seq<char>) -> MenuEntryView {
    MenuEntryView::Item { id, label, enabled: true }
}

/// The items of the tunnels, in order.
pub open spec fn tunnel_items(statuses: Seq<TunnelStatus>) -> Seq<MenuEntryView> {
    Seq::new(statuses.len(), |i: int| item(tunnel_item_id(statuses[i].id@), status_label(statuses[i])))
}

/// The tray menu: the app's name (disabled), a separator, one item per
/// tunnel, a separator, the errors item when there are errors, the item
/// that opens the configuration window, a separator, and the quit item.
pub open spec fn tray_menu_entries(statuses: Seq<TunnelStatus>, error_count: usize) -> Seq<MenuEntryView> {
    let head = seq![
        MenuEntryView::Item { id: "title"@, label: "Bad Adit"@, enabled: false },
        MenuEntryView::Separator,
    ];
    let errors = if error_count > 0 {
        seq![item("show_errors"@, error_label(error_count))]
    } else {
        Seq::empty()
    };
    head + tunnel_items(statuses) + seq![MenuEntryView::Separator] + errors + seq![
        item("edit_configs"@, "Edit Tunnel Configurations..."@),
        MenuEntryView::Separator,
        item("quit"@, "Quit Bad Adit"@),
    ]
}

pub open spec fn entry_views(v: Seq<MenuEntry>) -> Seq<MenuEntryView> {
    v.map_values(|e: MenuEntry| e@)
}

fn push_item(v: &mut Vec<MenuEntry>, id: &str, label: String)
    ensures
        entry_views(final(v)@) == entry_views(old(v)@).push(item(id@, label@)),
{
    v.push(MenuEntry::Item { id: String::from_str(id), label, enabled: true });
    assert(entry_views(v@) =~= entry_views(old(v)@).push(item(id@, label@)));
}

fn push_separator(v: &mut Vec<MenuEntry>)
    ensures
        entry_views(final(v)@) == entry_views(old(v)@).push(MenuEntryView::Separator),
{
    v.push(MenuEntry::Separator);
    assert(entry_views(v@) =~= entry_views(old(v)@).push(MenuEntryView::Separator));
}

/// Lays out the tray menu for the given statuses and error count.
pub fn tray_menu(statuses: &[TunnelStatus], error_count: usize) -> (r: Vec<MenuEntry>)
    ensures
        entry_views(r@) == tray_menu_entries(statuses@, error_count),
{
    let mut v: Vec<MenuEntry> = Vec::new();
    v.push(MenuEntry::Item {
        id: String::from_str("title"),
        label: String::from_str("Bad Adit"),
        enabled: false,
    });
    push_separator(&mut v);
    let ghost head = entry_views(v@);
    let n = statuses.len();
    let mut i: usize = 0;
    while i < n
        invariant
            n == statuses@.len(),
            i <= n,
            entry_views(v@) == head + tunnel_items(statuses@.subrange(0, i as int)),
        decreases n - i,
    {
        let id = tunnel_menu_id(statuses[i].id.as_str());
        let label = format_status_label(&statuses[i]);
        let ghost e = item(id@, label@);
        let ghost prev = entry_views(v@);
        v.push(MenuEntry::Item { id, label, enabled: true });
        assert(entry_views(v@) =~= prev.push(e));
        assert(tunnel_items(statuses@.subrange(0, i + 1)) =~= tunnel_items(
            statuses@.subrange(0, i as int),
        ).push(e));
        i = i + 1;
        assert(entry_views(v@) =~= head + tunnel_items(statuses@.subrange(0, i as int)));
    }
    assert(statuses@.subrange(0, n as int) =~= statuses@);
    push_separator(&mut v);
    if error_count > 0 {
        push_item(&mut v, "show_errors", error_menu_label(error_count));
    }
    push_item(&mut v, "edit_configs", String::from_str("Edit Tunnel Configurations..."));
    push_separator(&mut v);
    push_item(&mut v, "quit", String::from_str("Quit Bad Adit"));
    assert(entry_views(v@) =~= tray_menu_entries(statuses@, error_count));
    v
}

// ---------------------------------------------------------------------
// Clicks on the menu
// ---------------------------------------------------------------------

/// What a click on a menu item asks for.
#[derive(Debug)]
pub enum MenuAction {
    /// Stop every tunnel and leave.
    Quit,
    /// Bring the configuration window forward.
    ShowWindow,
    /// Bring the window forward on its log view.
    ShowErrors,
    /// Start the tunnel with this id, or stop it if it runs.
    ToggleTunnel(String),
    /// Not an item that does anything.
    Ignore,
}

pub enum MenuActionView {
    Quit,
    ShowWindow,
    ShowErrors,
    ToggleTunnel(Seq<char>),
    Ignore,
}

impl View for MenuAction {
    type V = MenuActionView;

    open spec fn view(&self) -> MenuActionView {
        match self {
            MenuAction::Quit => MenuActionView::Quit,
            MenuAction::ShowWindow => MenuActionView::ShowWindow,
            MenuAction::ShowErrors => MenuActionView::ShowErrors,
            MenuAction::ToggleTunnel(t) => MenuActionView::ToggleTunnel(t@),
            MenuAction::Ignore => MenuActionView::Ignore,
        }
    }
}

/// The action of the item with the menu id `id`.
pub open spec fn action_of(id: Seq<char>) -> MenuActionView {
    if id == "quit"@ {
        MenuActionView::Quit
    } else if id == "edit_configs"@ {
        MenuActionView::ShowWindow
    } else if id == "show_errors"@ {
        MenuActionView::ShowErrors
    } else if has_prefix(id, "tunnel:"@) {
        MenuActionView::ToggleTunnel(id.subrange("tunnel:"@.len() as int, id.len() as int))
    } else {
        MenuActionView::Ignore
    }
}

/// Decides what a click on the item with the menu id `id` does.
pub fn menu_action(id: &str) -> (r: MenuAction)
    ensures
        r@ == action_of(id@),
{
    if str_eq(id, "quit") {
        MenuAction::Quit
    } else if str_eq(id, "edit_configs") {
        MenuAction::ShowWindow
    } else if str_eq(id, "show_errors") {
        MenuAction::ShowErrors
    } else if str_starts_with(id, "tunnel:") {
        let prefix = "tunnel:";
        let k = prefix.unicode_len();
        let n = id.unicode_len();
        let rest = id.substring_char(k, n);
        MenuAction::ToggleTunnel(String::from_str(rest))
    } else {
        MenuAction::Ignore
    }
}

/// A click on a tunnel's item toggles exactly that tunnel.
pub proof fn law_tunnel_item_toggles_its_tunnel(id: Seq<char>)
    ensures
        action_of(tunnel_item_id(id)) == MenuActionView::ToggleTunnel(id),
{
    reveal_strlit("tunnel:");
    reveal_strlit("quit");
    reveal_strlit("edit_configs");
    reveal_strlit("show_errors");
    let t = tunnel_item_id(id);
    assert(t.subrange(0, 7) =~= "tunnel:"@);
    assert(t[0] == 't');
    assert("quit"@[0] == 'q');
    assert("edit_configs"@[0] == 'e');
    assert("show_errors"@[0] == 's');
    assert(t.subrange(7, t.len() as int) =~= id);
}

/// Whether the menu entry `e` is the item with the menu id `id`.
pub open spec fn has_item_id(e: MenuEntryView, id: Seq<char>) -> bool {
    e matches MenuEntryView::Item { id: eid, .. } && eid == id
}

/// The tray menu holds six fixed entries and one item per tunnel, plus the
/// errors item exactly when there is at least one error; that item then
/// comes right after the separator that follows the tunnels and shows the
/// count, and no other entry carries its id.
pub proof fn law_errors_item_iff_errors(statuses: Seq<TunnelStatus>, error_count: usize)
    ensures
        tray_menu_entries(statuses, error_count).len() == statuses.len() + 6 + (if error_count > 0 {
            1int
        } else {
            0int
        }),
        (exists|i: int|
            0 <= i < tray_menu_entries(statuses, error_count).len() && has_item_id(
                #[trigger] tray_menu_entries(statuses, error_count)[i],
                "show_errors"@,
            )) <==> error_count > 0,
        error_count > 0 ==> tray_menu_entries(statuses, error_count)[statuses.len() + 3int] == item(
            "show_errors"@,
            error_label(error_count),
        ),
{
    reveal_strlit("show_errors");
    reveal_strlit("title");
    reveal_strlit("edit_configs");
    reveal_strlit("quit");
    reveal_strlit("tunnel:");
    let m = tray_menu_entries(statuses, error_count);
    let n = statuses.len() as int;
    let se = "show_errors"@;
    assert(se[0] == 's');
    assert("title"@[0] == 't');
    assert("edit_configs"@[0] == 'e');
    assert("quit"@[0] == 'q');
    let head = seq![
        MenuEntryView::Item { id: "title"@, label: "Bad Adit"@, enabled: false },
        MenuEntryView::Separator,
    ];
    let tail = seq![
        item("edit_configs"@, "Edit Tunnel Configurations..."@),
        MenuEntryView::Separator,
        item("quit"@, "Quit Bad Adit"@),
    ];
    let errors = if error_count > 0 {
        seq![item("show_errors"@, error_label(error_count))]
    } else {
        Seq::<MenuEntryView>::empty()
    };
    let ti = tunnel_items(statuses);
    let front = head + ti + seq![MenuEntryView::Separator];
    assert(m == front + errors + tail);
    assert(front.len() == n + 3);
    assert forall|i: int| 0 <= i < m.len() && has_item_id(#[trigger] m[i], se) implies error_count > 0
        && i == n + 3 by {
        if i < 2 {
            assert(m[i] == head[i]);
        } else if i < n + 2 {
            assert(m[i] == ti[i - 2]);
            assert(tunnel_item_id(statuses[i - 2].id@)[0] == 't');
        } else if i == n + 2 {
            assert(m[i] == MenuEntryView::Separator);
        } else if error_count > 0 && i == n + 3 {
        } else {
            let j = i - (n + 3) - errors.len();
            assert(m[i] == tail[j]);
        }
    }
    if error_count > 0 {
        assert(m[n + 3] == errors[0]);
        assert(has_item_id(m[n + 3], se));
    }
}

} // verus!
