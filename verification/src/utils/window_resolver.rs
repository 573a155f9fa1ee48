use vstd::prelude::*;
use crate::error::WlsnipError;
use crate::utils::geometry::Region;
use crate::utils::text;
use crate::utils::text::{chars_of, contains, parse_u32_range, to_lowercase};

verus! {

/// A top-level window as reported by the compositor's IPC.
#[derive(Debug, Clone)]
pub struct WindowInfo {
    pub pid: Option<u32>,
    pub app_id: Option<String>,
    pub title: Option<String>,
    pub region: Region,
}

/// The content of a `WindowInfo`, with its texts as character sequences.
pub struct WindowView {
    pub pid: Option<u32>,
    pub app_id: Option<Seq<char>>,
    pub title: Option<Seq<char>>,
    pub region: Region,
}

pub open spec fn text_view(s: Option<String>) -> Option<Seq<char>> {
    match s {
        Some(t) => Some(t@),
        None => None,
    }
}

impl View for WindowInfo {
    type V = WindowView;

    open spec fn view(&self) -> WindowView {
        WindowView {
            pid: self.pid,
            app_id: text_view(self.app_id),
            title: text_view(self.title),
            region: self.region,
        }
    }
}

pub open spec fn window_views(ws: Seq<WindowInfo>) -> Seq<WindowView> {
    ws.map_values(|w: WindowInfo| w@)
}

pub open spec fn texts_view(s: Seq<String>) -> Seq<Seq<char>> {
    s.map_values(|t: String| t@)
}

/// The ignore list as character sequences.
pub open spec fn ignores_view(ignore_apps: Option<&[String]>) -> Option<Seq<Seq<char>>> {
    match ignore_apps {
        Some(s) => Some(texts_view(s@)),
        None => None,
    }
}

pub open spec fn pid_is(pid: u32) -> spec_fn(WindowView) -> bool {
    |w: WindowView| w.pid == Some(pid)
}

pub open spec fn matches_query(q: Seq<char>) -> spec_fn(WindowView) -> bool {
    |w: WindowView| window_matches(w, q)
}

pub open spec fn not_ignored(ignores: Option<Seq<Seq<char>>>) -> spec_fn(WindowView) -> bool {
    |w: WindowView| !ignored(w, ignores)
}

/// Index of the first element that satisfies `p`, if any.
pub open spec fn first_index(ws: Seq<WindowView>, p: spec_fn(WindowView) -> bool) -> Option<int>
    decreases ws.len(),
{
    if ws.len() == 0 {
        None
    } else {
        match first_index(ws.drop_last(), p) {
            Some(i) => Some(i),
            None => if p(ws.last()) { Some(ws.len() - 1) } else { None },
        }
    }
}

/// The text is present and, lowercased, contains the lowercased query.
pub open spec fn text_matches(field: Option<Seq<char>>, q: Seq<char>) -> bool {
    field matches Some(t) && text::contains_text(text::lowercase(t), text::lowercase(q))
}

/// A window matches a query through its app id or its title, case-insensitively.
pub open spec fn window_matches(w: WindowView, q: Seq<char>) -> bool {
    text_matches(w.app_id, q) || text_matches(w.title, q)
}

/// A window is ignored when an ignore list is given, is not empty, and the
/// window's app id, lowercased, contains one of its entries, lowercased.
pub open spec fn ignored(w: WindowView, ignores: Option<Seq<Seq<char>>>) -> bool {
    match ignores {
        None => false,
        Some(igs) => igs.len() > 0 && (w.app_id matches Some(a) && exists|i: int|
            0 <= i < igs.len() && text::contains_text(text::lowercase(a), text::lowercase(#[trigger] igs[i]))),
    }
}

/// Which window a query designates, among the windows reported by IPC.
/// With a query: the first window whose pid is the query read as a `u32`,
/// else the first window that matches it by app id or title. Without one:
/// the focused window reported by the compositor unless it is ignored, else
/// the first window that is not ignored.
pub open spec fn resolve_window_spec(
    ws: Seq<WindowView>,
    query: Option<Seq<char>>,
    ignores: Option<Seq<Seq<char>>>,
    active: Option<WindowView>,
) -> Result<Region, Seq<char>> {
    if ws.len() == 0 {
        Err("No windows found via IPC"@)
    } else {
        match query {
            Some(q) => {
                let by_pid = match text::parse_u32_spec(q) {
                    Some(pid) => first_index(ws, pid_is(pid)),
                    None => None,
                };
                match by_pid {
                    Some(i) => Ok(ws[i].region),
                    None => match first_index(ws, matches_query(q)) {
                        Some(i) => Ok(ws[i].region),
                        None => Err("No window matching '"@ + q + "' found"@),
                    },
                }
            },
            None => {
                if active matches Some(a) && !ignored(a, ignores) {
                    Ok(active->0.region)
                } else {
                    match first_index(ws, not_ignored(ignores)) {
                        Some(i) => Ok(ws[i].region),
                        None => Err("Could not determine active window"@),
                    }
                }
            },
        }
    }
}

/// Without a query, a focused window that the ignore list does not name is
/// the one captured, whatever else the ignore list holds and whatever other
/// windows the IPC reports.
pub proof fn focused_window_wins_unless_ignored(
    ws: Seq<WindowView>,
    ignores: Option<Seq<Seq<char>>>,
    active: WindowView,
)
    requires
        ws.len() > 0,
        !ignored(active, ignores),
    ensures
        resolve_window_spec(ws, None, ignores, Some(active)) == Ok::<Region, Seq<char>>(active.region),
{
}

/// The lowercase characters of a text.
fn lower_chars(s: &String) -> (v: Vec<char>)
    ensures
        v@ == text::lowercase(s@),
{
    chars_of(to_lowercase(s.as_str()).as_str())
}

/// Whether an optional text, lowercased, contains the (already lowercased) query.
fn field_matches(field: &Option<String>, q_lower: &Vec<char>) -> (b: bool)
    ensures
        b == (text_view(*field) matches Some(t) && text::contains_text(text::lowercase(t), q_lower@)),
{
    match field {
        Some(t) => contains(&lower_chars(t), q_lower),
        None => false,
    }
}

/// Whether the window is ignored by the given list of app ids.
pub fn is_ignored(win: &WindowInfo, ignore_apps: Option<&[String]>) -> (b: bool)
    ensures
        b == ignored(win@, ignores_view(ignore_apps)),
{
    let ignores = match ignore_apps {
        Some(s) => s,
        None => {
            return false;
        },
    };
    if ignores.len() == 0 {
        return false;
    }
    let ghost igs = texts_view(ignores@);
    match &win.app_id {
        Some(app_id) => {
            let app_lower = lower_chars(app_id);
            let mut i: usize = 0;
            while i < ignores.len()
                invariant
                    i <= ignores@.len(),
                    igs == texts_view(ignores@),
                    ignores_view(ignore_apps) == Some(igs),
                    win@.app_id == Some(app_id@),
                    app_lower@ == text::lowercase(app_id@),
                    forall|j: int| 0 <= j < i ==> !text::contains_text(text::lowercase(app_id@), text::lowercase(#[trigger] igs[j])),
                decreases ignores.len() - i,
            {
                let ig_lower = lower_chars(&ignores[i]);
                if contains(&app_lower, &ig_lower) {
                    assert(igs[i as int] == ignores@[i as int]@);
                    assert(text::contains_text(text::lowercase(app_id@), text::lowercase(igs[i as int])));

                    return true;
                }
                i += 1;
            }
            false
        },
        None => false,
    }
}

/// Position of the first window whose pid is `pid`.
fn find_by_pid(windows: &Vec<WindowInfo>, pid: u32) -> (res: Option<usize>)
    ensures
        res matches Some(i) ==> i < windows@.len() && first_index(window_views(windows@), pid_is(pid)) == Some(i as int),
        res is None ==> first_index(window_views(windows@), pid_is(pid)) is None,
{
    let ghost ws = window_views(windows@);
    let ghost p = pid_is(pid);
    let mut i: usize = 0;
    while i < windows.len()
        invariant
            i <= windows@.len(),
            ws == window_views(windows@),
            p == pid_is(pid),
            first_index(ws.take(i as int), p) is None,
        decreases windows.len() - i,
    {
        assert(ws.take(i + 1).drop_last() =~= ws.take(i as int));
        if windows[i].pid == Some(pid) {
            proof { lemma_first_index_prefix(ws, p, i + 1); }
            return Some(i);
        }
        i += 1;
    }
    assert(ws.take(i as int) =~= ws);
    None
}

/// Position of the first window that matches the (lowercased) query.
fn find_by_text(windows: &Vec<WindowInfo>, q: Ghost<Seq<char>>, q_lower: &Vec<char>) -> (res: Option<usize>)
    requires
        q_lower@ == text::lowercase(q@),
    ensures
        res matches Some(i) ==> i < windows@.len() && first_index(window_views(windows@), matches_query(q@)) == Some(i as int),
        res is None ==> first_index(window_views(windows@), matches_query(q@)) is None,
{
    let ghost ws = window_views(windows@);
    let ghost p = matches_query(q@);
    let mut i: usize = 0;
    while i < windows.len()
        invariant
            i <= windows@.len(),
            ws == window_views(windows@),
            q_lower@ == text::lowercase(q@),
            p == matches_query(q@),
            first_index(ws.take(i as int), p) is None,
        decreases windows.len() - i,
    {
        assert(ws.take(i + 1).drop_last() =~= ws.take(i as int));
        if field_matches(&windows[i].app_id, q_lower) || field_matches(&windows[i].title, q_lower) {
            proof { lemma_first_index_prefix(ws, p, i + 1); }
            return Some(i);
        }
        i += 1;
    }
    assert(ws.take(i as int) =~= ws);
    None
}

/// Position of the first window that is not ignored.
fn find_not_ignored(windows: &Vec<WindowInfo>, ignore_apps: Option<&[String]>) -> (res: Option<usize>)
    ensures
        res matches Some(i) ==> i < windows@.len() && first_index(window_views(windows@), not_ignored(ignores_view(ignore_apps))) == Some(i as int),
        res is None ==> first_index(window_views(windows@), not_ignored(ignores_view(ignore_apps))) is None,
{
    let ghost ws = window_views(windows@);
    let ghost p = not_ignored(ignores_view(ignore_apps));
    let mut i: usize = 0;
    while i < windows.len()
        invariant
            i <= windows@.len(),
            ws == window_views(windows@),
            p == not_ignored(ignores_view(ignore_apps)),
            first_index(ws.take(i as int), p) is None,
        decreases windows.len() - i,
    {
        assert(ws.take(i + 1).drop_last() =~= ws.take(i as int));
        if !is_ignored(&windows[i], ignore_apps) {
            proof { lemma_first_index_prefix(ws, p, i + 1); }
            return Some(i);
        }
        i += 1;
    }
    assert(ws.take(i as int) =~= ws);
    None
}

/// When the first `j` elements contain a match, it is the first match overall.
proof fn lemma_first_index_prefix(ws: Seq<WindowView>, p: spec_fn(WindowView) -> bool, j: int)
    requires
        0 <= j <= ws.len(),
        first_index(ws.take(j), p) is Some,
    ensures
        first_index(ws, p) == first_index(ws.take(j), p),
    decreases ws.len() - j,
{
    if j < ws.len() {
        assert(ws.drop_last().take(j) =~= ws.take(j));
        lemma_first_index_prefix(ws.drop_last(), p, j);
    } else {
        assert(ws.take(j) =~= ws);
    }
}

/// Decide which window region to capture, from the windows reported by the
/// compositor's IPC (`windows`), an optional query (a pid, or a part of an
/// app id or title), an optional list of app ids to skip, and the focused
/// window that the compositor reported (`active`, asked for only without a query).
pub fn resolve_window(
    windows: &Vec<WindowInfo>,
    query: Option<&str>,
    ignore_apps: Option<&[String]>,
    active: Option<WindowInfo>,
) -> (res: Result<Region, WlsnipError>)
    ensures
        ({
            let spec_res = resolve_window_spec(
                window_views(windows@),
                match query { Some(q) => Some(q@), None => None },
                ignores_view(ignore_apps),
                match active { Some(a) => Some(a@), None => None },
            );
            match res {
                Ok(r) => spec_res == Ok::<Region, Seq<char>>(r),
                Err(e) => exists|m: String| e == WlsnipError::Capture(m) && spec_res == Err::<Region, Seq<char>>(m@),
            }
        }),
{
    let ghost ws = window_views(windows@);
    if windows.len() == 0 {
        return Err(WlsnipError::Capture(String::from_str("No windows found via IPC")));
    }
    match query {
        Some(q) => {
            let q_chars = chars_of(q);
            let parsed = parse_u32_range(&q_chars, 0, q_chars.len());
            assert(q_chars@.subrange(0, q_chars@.len() as int) =~= q@);
            let by_pid = match parsed {
                Some(pid) => find_by_pid(windows, pid),
                None => None,
            };
            match by_pid {
                Some(i) => {
                    proof {
                        let pid = parsed->0;
                        assert(text::parse_u32_spec(q@) == Some(pid));
                        assert(first_index(ws, pid_is(pid)) == Some(i as int));
                        assert(ws[i as int] == windows@[i as int]@);
                    }
                    return Ok(windows[i].region);
                },
                None => {},
            }
            let q_lower = chars_of(to_lowercase(q).as_str());
            match find_by_text(windows, Ghost(q@), &q_lower) {
                Some(i) => {
                    assert(ws[i as int] == windows@[i as int]@);
                    Ok(windows[i].region)
                },
                None => {
                    let mut m = String::from_str("No window matching '");
                    m.append(q);
                    m.append("' found");
                    Err(WlsnipError::Capture(m))
                },
            }
        },
        None => {
            match &active {
                Some(a) => {
                    if !is_ignored(a, ignore_apps) {
                        return Ok(a.region);
                    }
                },
                None => {},
            }
            match find_not_ignored(windows, ignore_apps) {
                Some(i) => {
                    assert(ws[i as int] == windows@[i as int]@);
                    Ok(windows[i].region)
                },
                None => Err(WlsnipError::Capture(String::from_str("Could not determine active window"))),
            }
        },
    }
}


// ── Compositor IPC records ─────────────────────────────────────────────────

/// A client as `mmsg` (MangoWC) reports it.
#[derive(Debug, Clone)]
pub struct MmsgClient {
    pub id: Option<u32>,
    pub pid: Option<u32>,
    pub app_id: Option<String>,
    pub title: Option<String>,
    pub x: i32,
    pub y: i32,
    pub width: u32,
    pub height: u32,
}

/// A client as `hyprctl` (Hyprland) reports it.
#[derive(Debug, Clone)]
pub struct HyprctlClient {
    pub pid: Option<u32>,
    pub class: Option<String>,
    pub title: Option<String>,
    pub at: [i32; 2],
    pub size: [u32; 2],
}

/// A node of the `swaymsg -t get_tree` layout tree.
#[derive(Debug)]
pub struct SwayNode {
    pub pid: Option<u32>,
    pub app_id: Option<String>,
    pub name: Option<String>,
    pub rect: SwayRect,
    pub nodes: Vec<SwayNode>,
    pub floating_nodes: Vec<SwayNode>,
}

/// The rectangle of a sway node.
#[derive(Debug, Clone, Copy, PartialEq, Eq, Structural)]
pub struct SwayRect {
    pub x: i32,
    pub y: i32,
    pub width: u32,
    pub height: u32,
}

/// The window of an mmsg client: its pid, or its id when the pid is missing.
pub fn window_from_mmsg(client: MmsgClient) -> (w: WindowInfo)
    ensures
        w@ == (WindowView {
            pid: if client.pid is Some { client.pid } else { client.id },
            app_id: text_view(client.app_id),
            title: text_view(client.title),
            region: Region { x: client.x, y: client.y, width: client.width, height: client.height },
        }),
{
    WindowInfo {
        pid: match client.pid { Some(p) => Some(p), None => client.id },
        app_id: client.app_id,
        title: client.title,
        region: Region { x: client.x, y: client.y, width: client.width, height: client.height },
    }
}

/// The window of a hyprctl client: its class is the app id, `at` the
/// position and `size` the size.
pub fn window_from_hyprctl(client: HyprctlClient) -> (w: WindowInfo)
    ensures
        w@ == (WindowView {
            pid: client.pid,
            app_id: text_view(client.class),
            title: text_view(client.title),
            region: Region { x: client.at[0], y: client.at[1], width: client.size[0], height: client.size[1] },
        }),
{
    WindowInfo {
        pid: client.pid,
        app_id: client.class,
        title: client.title,
        region: Region { x: client.at[0], y: client.at[1], width: client.size[0], height: client.size[1] },
    }
}

/// The window of a sway node: its name is the title, its rectangle the region.
pub open spec fn sway_node_window(node: SwayNode) -> WindowView {
    WindowView {
        pid: node.pid,
        app_id: text_view(node.app_id),
        title: text_view(node.name),
        region: Region { x: node.rect.x, y: node.rect.y, width: node.rect.width, height: node.rect.height },
    }
}

/// The windows of a sway tree, in depth-first order: the node itself when it
/// has an app id or a pid, then the windows of its tiled children, then those
/// of its floating children.
pub open spec fn sway_tree_windows(node: SwayNode) -> Seq<WindowView>
    decreases node,
{
    let own = if node.app_id is Some || node.pid is Some { seq![sway_node_window(node)] } else { Seq::empty() };
    own + sway_forest_windows(node.nodes@) + sway_forest_windows(node.floating_nodes@)
}

/// The windows of a list of sway trees, tree after tree.
pub open spec fn sway_forest_windows(nodes: Seq<SwayNode>) -> Seq<WindowView>
    decreases nodes,
{
    if nodes.len() == 0 {
        Seq::empty()
    } else {
        sway_forest_windows(nodes.drop_last()) + sway_tree_windows(nodes.last())
    }
}

fn push_sway_windows(node: &SwayNode, out: &mut Vec<WindowInfo>)
    ensures
        window_views(final(out)@) == window_views(old(out)@) + sway_tree_windows(*node),
    decreases *node,
{
    let ghost start = window_views(out@);
    if node.app_id.is_some() || node.pid.is_some() {
        let w = WindowInfo {
            pid: node.pid,
            app_id: node.app_id.clone(),
            title: node.name.clone(),
            region: Region { x: node.rect.x, y: node.rect.y, width: node.rect.width, height: node.rect.height },
        };
        out.push(w);
        assert(window_views(out@) =~= start + seq![sway_node_window(*node)]);
    } else {
        assert(window_views(out@) =~= start + Seq::<WindowView>::empty());
    }
    let ghost own = window_views(out@);
    push_sway_forest(&node.nodes, out);
    push_sway_forest(&node.floating_nodes, out);
    assert(window_views(out@) =~= start + sway_tree_windows(*node));
}

fn push_sway_forest(nodes: &Vec<SwayNode>, out: &mut Vec<WindowInfo>)
    ensures
        window_views(final(out)@) == window_views(old(out)@) + sway_forest_windows(nodes@),
    decreases nodes@,
{
    let ghost start = window_views(out@);
    let mut i: usize = 0;
    while i < nodes.len()
        invariant
            i <= nodes@.len(),
            window_views(out@) == start + sway_forest_windows(nodes@.take(i as int)),
        decreases nodes.len() - i,
    {
        assert(nodes@.take(i + 1).drop_last() =~= nodes@.take(i as int));
        push_sway_windows(&nodes[i], out);
        assert(window_views(out@) =~= start + sway_forest_windows(nodes@.take(i + 1)));
        i += 1;
    }
    assert(nodes@.take(i as int) =~= nodes@);
}

/// All windows of a sway layout tree.
pub fn sway_windows(root: &SwayNode) -> (windows: Vec<WindowInfo>)
    ensures
        window_views(windows@) == sway_tree_windows(*root),
{
    let mut out: Vec<WindowInfo> = Vec::new();
    push_sway_windows(root, &mut out);
    assert(window_views(Seq::<WindowInfo>::empty()) =~= Seq::<WindowView>::empty());
    assert(Seq::<WindowView>::empty() + sway_tree_windows(*root) =~= sway_tree_windows(*root));
    out
}

} // verus!
