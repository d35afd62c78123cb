//! The registry through which plugins add menu entries, icons, notifications
//! and windows to the overlay. The overlay drains the queues once per frame.
//!
//! Plugin callbacks are C function pointers; the registry holds them as
//! addresses and never calls them.

use vstd::prelude::*;

verus! {

/// A window that a plugin asked the overlay to show.
pub struct PluginWindow {
    pub id: i32,
    pub title: String,
    pub contents_callback: Option<usize>,
    pub bottom_callback: Option<usize>,
    pub userdata: usize,
}

/// An entry of the plugin menu.
pub struct PluginMenuItem {
    pub label: String,
    pub callback: Option<usize>,
    pub userdata: usize,
}

/// An icon image: where it is loaded from and its encoded bytes.
pub struct PluginMenuIcon {
    pub uri: String,
    pub bytes: Vec<u8>,
}

/// A section that a plugin draws inside the menu.
pub struct PluginMenuSection {
    pub title: Option<String>,
    pub icon: Option<PluginMenuIcon>,
    pub callback: usize,
    pub userdata: usize,
}

/// Everything plugins have registered or queued.
pub struct PluginRegistry {
    pub menu_items: Vec<PluginMenuItem>,
    pub menu_sections: Vec<PluginMenuSection>,
    /// Icons by label; a later entry for a label shadows an earlier one.
    pub menu_icons: Vec<(String, PluginMenuIcon)>,
    pub notifications: Vec<String>,
    pub windows_to_show: Vec<PluginWindow>,
    pub windows_to_close: Vec<i32>,
}

/// The icon registered under `label` in `entries`, the latest one winning.
pub open spec fn icon_lookup(entries: Seq<(String, PluginMenuIcon)>, label: Seq<char>) -> Option<
    PluginMenuIcon,
>
    decreases entries.len(),
{
    if entries.len() == 0 {
        None
    } else if entries.last().0@ == label {
        Some(entries.last().1)
    } else {
        icon_lookup(entries.drop_last(), label)
    }
}

fn copy_string(s: &String) -> (r: String)
    ensures
        r == *s,
{
    s.clone()
}

fn copy_opt_string(s: &Option<String>) -> (r: Option<String>)
    ensures
        r == *s,
{
    match s {
        Some(t) => Some(t.clone()),
        None => None,
    }
}

fn copy_bytes(b: &Vec<u8>) -> (r: Vec<u8>)
    ensures
        r@ == b@,
{
    let mut r: Vec<u8> = Vec::new();
    let mut i: usize = 0;
    while i < b.len()
        invariant
            i <= b.len(),
            r@ == b@.take(i as int),
        decreases b.len() - i,
    {
        r.push(b[i]);
        i += 1;
        assert(r@ =~= b@.take(i as int));
    }
    assert(b@.take(b.len() as int) =~= b@);
    r
}

impl PluginWindow {
    /// An equal copy.
    pub fn duplicate(&self) -> (r: Self)
        ensures
            r == *self,
    {
        PluginWindow {
            id: self.id,
            title: copy_string(&self.title),
            contents_callback: self.contents_callback,
            bottom_callback: self.bottom_callback,
            userdata: self.userdata,
        }
    }
}

impl PluginMenuItem {
    /// An equal copy.
    pub fn duplicate(&self) -> (r: Self)
        ensures
            r == *self,
    {
        PluginMenuItem {
            label: copy_string(&self.label),
            callback: self.callback,
            userdata: self.userdata,
        }
    }
}

impl PluginMenuIcon {
    /// A copy with the same uri and bytes.
    pub fn duplicate(&self) -> (r: Self)
        ensures
            r.uri == self.uri,
            r.bytes@ == self.bytes@,
    {
        PluginMenuIcon { uri: copy_string(&self.uri), bytes: copy_bytes(&self.bytes) }
    }
}

/// The same icon: equal uri and equal bytes.
pub open spec fn same_icon(a: PluginMenuIcon, b: PluginMenuIcon) -> bool {
    a.uri == b.uri && a.bytes@ == b.bytes@
}

pub open spec fn same_opt_icon(a: Option<PluginMenuIcon>, b: Option<PluginMenuIcon>) -> bool {
    match (a, b) {
        (Some(x), Some(y)) => same_icon(x, y),
        (None, None) => true,
        _ => false,
    }
}

/// The same section, icons compared by content.
pub open spec fn same_section(a: PluginMenuSection, b: PluginMenuSection) -> bool {
    &&& a.title == b.title
    &&& same_opt_icon(a.icon, b.icon)
    &&& a.callback == b.callback
    &&& a.userdata == b.userdata
}

impl PluginMenuSection {
    /// A copy of the section.
    pub fn duplicate(&self) -> (r: Self)
        ensures
            same_section(r, *self),
    {
        let icon = match &self.icon {
            Some(i) => Some(i.duplicate()),
            None => None,
        };
        PluginMenuSection {
            title: copy_opt_string(&self.title),
            icon,
            callback: self.callback,
            userdata: self.userdata,
        }
    }
}

impl PluginRegistry {
    /// A registry with nothing registered or queued.
    pub fn new() -> (r: Self)
        ensures
            r.menu_items@.len() == 0,
            r.menu_sections@.len() == 0,
            r.menu_icons@.len() == 0,
            r.notifications@.len() == 0,
            r.windows_to_show@.len() == 0,
            r.windows_to_close@.len() == 0,
    {
        PluginRegistry {
            menu_items: Vec::new(),
            menu_sections: Vec::new(),
            menu_icons: Vec::new(),
            notifications: Vec::new(),
            windows_to_show: Vec::new(),
            windows_to_close: Vec::new(),
        }
    }
}

/// The registry unchanged but for its menu items.
pub open spec fn same_but_items(a: PluginRegistry, b: PluginRegistry) -> bool {
    &&& a.menu_sections == b.menu_sections
    &&& a.menu_icons == b.menu_icons
    &&& a.notifications == b.notifications
    &&& a.windows_to_show == b.windows_to_show
    &&& a.windows_to_close == b.windows_to_close
}

/// The menu entry that a registration with these arguments adds.
pub open spec fn menu_item_of(r: (String, Option<usize>, usize)) -> PluginMenuItem {
    PluginMenuItem { label: r.0, callback: r.1, userdata: r.2 }
}

/// The menu entries after the registrations `regs` (label, callback,
/// userdata), in order.
pub open spec fn items_after(
    items: Seq<PluginMenuItem>,
    regs: Seq<(String, Option<usize>, usize)>,
) -> Seq<PluginMenuItem>
    decreases regs.len(),
{
    if regs.len() == 0 {
        items
    } else {
        items_after(items, regs.drop_last()).push(menu_item_of(regs.last()))
    }
}

/// The menu lists its entries in registration order: after registrations
/// into an empty menu, entry `i` is the `i`-th registration, with its label,
/// callback and userdata.
pub proof fn law_menu_items_in_registration_order(regs: Seq<(String, Option<usize>, usize)>)
    ensures
        items_after(Seq::<PluginMenuItem>::empty(), regs).len() == regs.len(),
        forall|i: int|
            0 <= i < regs.len() ==> #[trigger] items_after(Seq::<PluginMenuItem>::empty(), regs)[i]
                == menu_item_of(regs[i]),
    decreases regs.len(),
{
    if regs.len() > 0 {
        law_menu_items_in_registration_order(regs.drop_last());
        let prev = items_after(Seq::<PluginMenuItem>::empty(), regs.drop_last());
        assert forall|i: int| 0 <= i < regs.len() implies #[trigger] items_after(
            Seq::<PluginMenuItem>::empty(),
            regs,
        )[i] == menu_item_of(regs[i]) by {
            if i < regs.len() - 1 {
                assert(prev[i] == menu_item_of(regs.drop_last()[i]));
            }
        }
    }
}

/// Adds an entry to the plugin menu.
pub fn register_plugin_menu_item(
    reg: &mut PluginRegistry,
    label: String,
    callback: Option<usize>,
    userdata: usize,
)
    ensures
        final(reg).menu_items@ == old(reg).menu_items@.push(
            PluginMenuItem { label, callback, userdata },
        ),
        final(reg).menu_items@ == items_after(old(reg).menu_items@, seq![(label, callback, userdata)]),
        same_but_items(*final(reg), *old(reg)),
{
    let ghost before = reg.menu_items@;
    let ghost regs = seq![(label, callback, userdata)];
    reg.menu_items.push(PluginMenuItem { label, callback, userdata });
    assert(regs.drop_last() =~= Seq::<(String, Option<usize>, usize)>::empty());
    assert(items_after(before, regs.drop_last()) == before);
    assert(regs.last() == (label, callback, userdata));
    assert(items_after(before, regs) == before.push(menu_item_of(regs.last())));
}

/// The registry unchanged but for its menu sections.
pub open spec fn same_but_sections(a: PluginRegistry, b: PluginRegistry) -> bool {
    &&& a.menu_items == b.menu_items
    &&& a.menu_icons == b.menu_icons
    &&& a.notifications == b.notifications
    &&& a.windows_to_show == b.windows_to_show
    &&& a.windows_to_close == b.windows_to_close
}

/// Adds an untitled section without icon to the plugin menu.
pub fn register_plugin_menu_section(reg: &mut PluginRegistry, callback: usize, userdata: usize)
    ensures
        final(reg).menu_sections@ == old(reg).menu_sections@.push(
            PluginMenuSection { title: None, icon: None, callback, userdata },
        ),
        same_but_sections(*final(reg), *old(reg)),
{
    reg.menu_sections.push(PluginMenuSection { title: None, icon: None, callback, userdata });
}

/// Adds a titled section with an icon; refused (and nothing changes) when the
/// title, the uri or the bytes are empty.
pub fn register_plugin_menu_section_with_icon(
    reg: &mut PluginRegistry,
    title: String,
    uri: String,
    bytes: Vec<u8>,
    callback: usize,
    userdata: usize,
) -> (ok: bool)
    ensures
        ok == (title@.len() > 0 && uri@.len() > 0 && bytes@.len() > 0),
        ok ==> final(reg).menu_sections@ == old(reg).menu_sections@.push(
            PluginMenuSection {
                title: Some(title),
                icon: Some(PluginMenuIcon { uri, bytes }),
                callback,
                userdata,
            },
        ),
        !ok ==> final(reg).menu_sections == old(reg).menu_sections,
        same_but_sections(*final(reg), *old(reg)),
{
    if title.as_str().is_empty() || uri.as_str().is_empty() || bytes.len() == 0 {
        return false;
    }
    reg.menu_sections.push(
        PluginMenuSection {
            title: Some(title),
            icon: Some(PluginMenuIcon { uri, bytes }),
            callback,
            userdata,
        },
    );
    true
}

/// The registry unchanged but for its icons.
pub open spec fn same_but_icons(a: PluginRegistry, b: PluginRegistry) -> bool {
    &&& a.menu_items == b.menu_items
    &&& a.menu_sections == b.menu_sections
    &&& a.notifications == b.notifications
    &&& a.windows_to_show == b.windows_to_show
    &&& a.windows_to_close == b.windows_to_close
}

/// The entries whose label is not `label`.
pub open spec fn not_labelled(label: Seq<char>) -> spec_fn((String, PluginMenuIcon)) -> bool {
    |e: (String, PluginMenuIcon)| e.0@ != label
}

/// The icon list after `icon` is registered under `label`: earlier entries
/// for the label are dropped and the new one goes last.
pub open spec fn icons_after_register(
    icons: Seq<(String, PluginMenuIcon)>,
    label: String,
    icon: PluginMenuIcon,
) -> Seq<(String, PluginMenuIcon)> {
    icons.filter(not_labelled(label@)).push((label, icon))
}

proof fn lemma_filter_step(s: Seq<(String, PluginMenuIcon)>, label: Seq<char>, i: int)
    requires
        0 <= i < s.len(),
    ensures
        s.take(i + 1).filter(not_labelled(label)) == (if s[i].0@ != label {
            s.take(i).filter(not_labelled(label)).push(s[i])
        } else {
            s.take(i).filter(not_labelled(label))
        }),
{
    reveal(Seq::filter);
    assert(s.take(i + 1).drop_last() =~= s.take(i));
    assert(s.take(i + 1).last() == s[i]);
}

/// Dropping the entries of one label changes no other label's icon and
/// leaves that label without one.
proof fn lemma_lookup_filtered(s: Seq<(String, PluginMenuIcon)>, label: Seq<char>, other: Seq<char>)
    ensures
        icon_lookup(s.filter(not_labelled(label)), other) == (if other == label {
            None
        } else {
            icon_lookup(s, other)
        }),
    decreases s.len(),
{
    reveal(Seq::filter);
    if s.len() > 0 {
        let f = s.drop_last().filter(not_labelled(label));
        lemma_lookup_filtered(s.drop_last(), label, other);
        assert(s.filter(not_labelled(label)) == (if s.last().0@ != label {
            f.push(s.last())
        } else {
            f
        }));
        assert(f.push(s.last()).drop_last() =~= f);
    }
}

/// The lookup after a registration: the new icon for its label, the icons of
/// before for every other label.
pub proof fn lemma_lookup_after_register(
    icons: Seq<(String, PluginMenuIcon)>,
    label: String,
    icon: PluginMenuIcon,
    other: Seq<char>,
)
    ensures
        icon_lookup(icons_after_register(icons, label, icon), other) == (if other == label@ {
            Some(icon)
        } else {
            icon_lookup(icons, other)
        }),
{
    let f = icons.filter(not_labelled(label@));
    assert(icons_after_register(icons, label, icon).drop_last() == f);
    lemma_lookup_filtered(icons, label@, other);
}

/// A registration of an icon with these arguments (label, uri, bytes) is
/// accepted: none is empty.
pub open spec fn icon_accepted(a: (String, String, Vec<u8>)) -> bool {
    a.0@.len() > 0 && a.1@.len() > 0 && a.2@.len() > 0
}

/// The icon list after the registration attempts `attempts`, in order;
/// refused ones change nothing.
pub open spec fn icons_after_attempts(
    icons: Seq<(String, PluginMenuIcon)>,
    attempts: Seq<(String, String, Vec<u8>)>,
) -> Seq<(String, PluginMenuIcon)>
    decreases attempts.len(),
{
    if attempts.len() == 0 {
        icons
    } else {
        let prev = icons_after_attempts(icons, attempts.drop_last());
        let a = attempts.last();
        if icon_accepted(a) {
            icons_after_register(prev, a.0, PluginMenuIcon { uri: a.1, bytes: a.2 })
        } else {
            prev
        }
    }
}

/// The icon of the last accepted registration for `label` among `attempts`.
pub open spec fn last_accepted_icon(
    attempts: Seq<(String, String, Vec<u8>)>,
    label: Seq<char>,
) -> Option<PluginMenuIcon>
    decreases attempts.len(),
{
    if attempts.len() == 0 {
        None
    } else {
        let a = attempts.last();
        if icon_accepted(a) && a.0@ == label {
            Some(PluginMenuIcon { uri: a.1, bytes: a.2 })
        } else {
            last_accepted_icon(attempts.drop_last(), label)
        }
    }
}

/// An icon lookup gives the latest accepted registration: after any
/// registration attempts into an empty list, the icon found for a label is
/// that of the last accepted registration for it, and none when no
/// registration for it was accepted.
pub proof fn law_icon_lookup_gives_last_registration(
    attempts: Seq<(String, String, Vec<u8>)>,
    label: Seq<char>,
)
    ensures
        icon_lookup(icons_after_attempts(Seq::<(String, PluginMenuIcon)>::empty(), attempts), label)
            == last_accepted_icon(attempts, label),
    decreases attempts.len(),
{
    if attempts.len() > 0 {
        law_icon_lookup_gives_last_registration(attempts.drop_last(), label);
        let a = attempts.last();
        if icon_accepted(a) {
            lemma_lookup_after_register(
                icons_after_attempts(Seq::<(String, PluginMenuIcon)>::empty(), attempts.drop_last()),
                a.0,
                PluginMenuIcon { uri: a.1, bytes: a.2 },
                label,
            );
        }
    }
}

/// Registers the icon shown for the menu entry `label`, replacing any earlier
/// one; refused (and nothing changes) when the label, the uri or the bytes are
/// empty.
pub fn register_plugin_menu_icon(
    reg: &mut PluginRegistry,
    label: String,
    uri: String,
    bytes: Vec<u8>,
) -> (ok: bool)
    ensures
        ok == (label@.len() > 0 && uri@.len() > 0 && bytes@.len() > 0),
        ok ==> final(reg).menu_icons@ == icons_after_register(
            old(reg).menu_icons@,
            label,
            PluginMenuIcon { uri, bytes },
        ),
        final(reg).menu_icons@ == icons_after_attempts(old(reg).menu_icons@, seq![(label, uri, bytes)]),
        ok ==> icon_lookup(final(reg).menu_icons@, label@) == Some(PluginMenuIcon { uri, bytes }),
        ok ==> forall|other: Seq<char>|
            other != label@ ==> #[trigger] icon_lookup(final(reg).menu_icons@, other)
                == icon_lookup(old(reg).menu_icons@, other),
        !ok ==> final(reg).menu_icons == old(reg).menu_icons,
        same_but_icons(*final(reg), *old(reg)),
{
    let ghost attempt = seq![(label, uri, bytes)];
    let ghost before = reg.menu_icons@;
    assert(attempt.drop_last() =~= Seq::<(String, String, Vec<u8>)>::empty());
    assert(icons_after_attempts(before, attempt.drop_last()) == before);
    assert(attempt.last() == (label, uri, bytes));
    if label.as_str().is_empty() || uri.as_str().is_empty() || bytes.len() == 0 {
        return false;
    }
    let mut rest: Vec<(String, PluginMenuIcon)> = Vec::new();
    std::mem::swap(&mut reg.menu_icons, &mut rest);
    let n0 = rest.len();
    let ghost orig = rest@;
    let mut kept: Vec<(String, PluginMenuIcon)> = Vec::new();
    let mut i: usize = 0;
    proof {
        reveal(Seq::filter);
        assert(orig.take(0) =~= Seq::<(String, PluginMenuIcon)>::empty());
        assert(orig.take(0).filter(not_labelled(label@)) =~= Seq::<(String, PluginMenuIcon)>::empty());
    }
    while rest.len() > 0
        invariant
            i + rest@.len() == orig.len(),
            n0 == orig.len(),
            rest@ == orig.skip(i as int),
            kept@ == orig.take(i as int).filter(not_labelled(label@)),
        decreases rest.len(),
    {
        proof {
            lemma_filter_step(orig, label@, i as int);
        }
        assert(rest@[0] == orig[i as int]);
        let entry = rest.remove(0);
        assert(rest@ =~= orig.skip(i + 1));
        if !(entry.0 == label) {
            kept.push(entry);
        }
        i += 1;
    }
    assert(orig.take(orig.len() as int) =~= orig);
    kept.push((label, PluginMenuIcon { uri, bytes }));
    proof {
        assert forall|other: Seq<char>| other != label@ implies #[trigger] icon_lookup(kept@, other)
            == icon_lookup(orig, other) by {
            lemma_lookup_after_register(orig, label, PluginMenuIcon { uri, bytes }, other);
        }
        lemma_lookup_after_register(orig, label, PluginMenuIcon { uri, bytes }, label@);
    }
    reg.menu_icons = kept;
    true
}

/// The icon registered for `label`, if any.
pub fn get_plugin_menu_icon(reg: &PluginRegistry, label: &str) -> (r: Option<PluginMenuIcon>)
    ensures
        same_opt_icon(r, icon_lookup(reg.menu_icons@, label@)),
{
    let key: String = label.to_owned();
    let mut i: usize = reg.menu_icons.len();
    assert(reg.menu_icons@.take(i as int) =~= reg.menu_icons@);
    while i > 0
        invariant
            i <= reg.menu_icons@.len(),
            key@ == label@,
            icon_lookup(reg.menu_icons@, label@) == icon_lookup(
                reg.menu_icons@.take(i as int),
                label@,
            ),
        decreases i,
    {
        let ghost prefix = reg.menu_icons@.take(i as int);
        assert(prefix.drop_last() =~= reg.menu_icons@.take(i - 1));
        assert(prefix.last() == reg.menu_icons@[i - 1]);
        if reg.menu_icons[i - 1].0 == key {
            return Some(reg.menu_icons[i - 1].1.duplicate());
        }
        i -= 1;
    }
    None
}

/// The registry unchanged but for its notification queue.
pub open spec fn same_but_notifications(a: PluginRegistry, b: PluginRegistry) -> bool {
    &&& a.menu_items == b.menu_items
    &&& a.menu_sections == b.menu_sections
    &&& a.menu_icons == b.menu_icons
    &&& a.windows_to_show == b.windows_to_show
    &&& a.windows_to_close == b.windows_to_close
}

/// Queues a notification for the overlay.
pub fn enqueue_plugin_notification(reg: &mut PluginRegistry, message: String)
    ensures
        final(reg).notifications@ == old(reg).notifications@.push(message),
        same_but_notifications(*final(reg), *old(reg)),
{
    reg.notifications.push(message);
}

/// Takes every queued notification, oldest first, and empties the queue.
pub fn drain_plugin_notifications(reg: &mut PluginRegistry) -> (r: Vec<String>)
    ensures
        r@ == old(reg).notifications@,
        final(reg).notifications@.len() == 0,
        same_but_notifications(*final(reg), *old(reg)),
{
    let mut out: Vec<String> = Vec::new();
    std::mem::swap(&mut reg.notifications, &mut out);
    out
}

/// The registry unchanged but for the queue of windows to show.
pub open spec fn same_but_shown(a: PluginRegistry, b: PluginRegistry) -> bool {
    &&& a.menu_items == b.menu_items
    &&& a.menu_sections == b.menu_sections
    &&& a.menu_icons == b.menu_icons
    &&& a.notifications == b.notifications
    &&& a.windows_to_close == b.windows_to_close
}

/// The registry unchanged but for the queue of windows to close.
pub open spec fn same_but_closed(a: PluginRegistry, b: PluginRegistry) -> bool {
    &&& a.menu_items == b.menu_items
    &&& a.menu_sections == b.menu_sections
    &&& a.menu_icons == b.menu_icons
    &&& a.notifications == b.notifications
    &&& a.windows_to_show == b.windows_to_show
}

/// Queues a plugin window to be opened.
pub fn show_plugin_window(
    reg: &mut PluginRegistry,
    id: i32,
    title: String,
    contents_callback: Option<usize>,
    bottom_callback: Option<usize>,
    userdata: usize,
)
    ensures
        final(reg).windows_to_show@ == old(reg).windows_to_show@.push(
            PluginWindow { id, title, contents_callback, bottom_callback, userdata },
        ),
        same_but_shown(*final(reg), *old(reg)),
{
    reg.windows_to_show.push(
        PluginWindow { id, title, contents_callback, bottom_callback, userdata },
    );
}

/// Queues a plugin window to be opened (the older name of `show_plugin_window`).
#[allow(non_snake_case)]
pub fn show_plugin_AppWindow(
    reg: &mut PluginRegistry,
    id: i32,
    title: String,
    contents_callback: Option<usize>,
    bottom_callback: Option<usize>,
    userdata: usize,
)
    ensures
        final(reg).windows_to_show@ == old(reg).windows_to_show@.push(
            PluginWindow { id, title, contents_callback, bottom_callback, userdata },
        ),
        same_but_shown(*final(reg), *old(reg)),
{
    reg.windows_to_show.push(
        PluginWindow { id, title, contents_callback, bottom_callback, userdata },
    );
}

/// Queues the closing of the plugin window `id`.
pub fn close_plugin_window(reg: &mut PluginRegistry, id: i32)
    ensures
        final(reg).windows_to_close@ == old(reg).windows_to_close@.push(id),
        same_but_closed(*final(reg), *old(reg)),
{
    reg.windows_to_close.push(id);
}

/// Queues the closing of the plugin window `id` (the older name of
/// `close_plugin_window`).
#[allow(non_snake_case)]
pub fn close_plugin_AppWindow(reg: &mut PluginRegistry, id: i32)
    ensures
        final(reg).windows_to_close@ == old(reg).windows_to_close@.push(id),
        same_but_closed(*final(reg), *old(reg)),
{
    reg.windows_to_close.push(id);
}

/// Takes every window queued to be shown, oldest first, and empties the queue.
pub fn drain_plugin_windows_to_show(reg: &mut PluginRegistry) -> (r: Vec<PluginWindow>)
    ensures
        r@ == old(reg).windows_to_show@,
        final(reg).windows_to_show@.len() == 0,
        same_but_shown(*final(reg), *old(reg)),
{
    let mut out: Vec<PluginWindow> = Vec::new();
    std::mem::swap(&mut reg.windows_to_show, &mut out);
    out
}

/// Takes every window id queued to be closed, oldest first, and empties the
/// queue.
pub fn take_plugin_windows_to_close(reg: &mut PluginRegistry) -> (r: Vec<i32>)
    ensures
        r@ == old(reg).windows_to_close@,
        final(reg).windows_to_close@.len() == 0,
        same_but_closed(*final(reg), *old(reg)),
{
    let mut out: Vec<i32> = Vec::new();
    std::mem::swap(&mut reg.windows_to_close, &mut out);
    out
}

/// A copy of the plugin menu entries, in registration order.
pub fn get_plugin_menu_items(reg: &PluginRegistry) -> (r: Vec<PluginMenuItem>)
    ensures
        r@ == reg.menu_items@,
{
    let mut out: Vec<PluginMenuItem> = Vec::new();
    let mut i: usize = 0;
    while i < reg.menu_items.len()
        invariant
            i <= reg.menu_items@.len(),
            out@ == reg.menu_items@.take(i as int),
        decreases reg.menu_items.len() - i,
    {
        out.push(reg.menu_items[i].duplicate());
        i += 1;
        assert(out@ =~= reg.menu_items@.take(i as int));
    }
    assert(reg.menu_items@.take(reg.menu_items@.len() as int) =~= reg.menu_items@);
    out
}

/// A copy of the plugin menu sections, in registration order.
pub fn get_plugin_menu_sections(reg: &PluginRegistry) -> (r: Vec<PluginMenuSection>)
    ensures
        r@.len() == reg.menu_sections@.len(),
        forall|i: int|
            0 <= i < r@.len() ==> same_section(#[trigger] r@[i], reg.menu_sections@[i]),
{
    let mut out: Vec<PluginMenuSection> = Vec::new();
    let mut i: usize = 0;
    while i < reg.menu_sections.len()
        invariant
            i <= reg.menu_sections@.len(),
            out@.len() == i,
            forall|k: int| 0 <= k < i ==> same_section(#[trigger] out@[k], reg.menu_sections@[k]),
        decreases reg.menu_sections.len() - i,
    {
        out.push(reg.menu_sections[i].duplicate());
        i += 1;
    }
    out
}

} // verus!
