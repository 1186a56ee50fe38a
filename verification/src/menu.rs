//! Menu registry: the static menu tree, built once at startup, and the
//! one mutable region of it — the recent-files submenu. Every clickable
//! leaf carries an abstract command identifier; a click is re-emitted
//! to the UI as that identifier's token, with no interpretation here.
//! The host renders this model with the native menu API and wraps the
//! region in the same lock class as the pending queue.
use vstd::prelude::*;

verus! {

/// One recent-file entry as the UI supplies it: the path it opens and
/// the display name shown in the menu. The UI owns the recency list;
/// the shell only renders it.
pub struct RecentFile {
    pub path: String,
    pub name: String,
}

/// The abstract command identifiers the menu can emit. The UI gives
/// them meaning; the registry only forwards them.
#[derive(Clone, Copy, Debug, PartialEq, Eq, Structural)]
pub enum CommandId {
    About,
    CheckForUpdates,
    NewFile,
    OpenFile,
    SaveFile,
    SaveAs,
    CloseTab,
    Undo,
    Redo,
    Find,
    FindReplace,
    FormatDocument,
    ToggleSidebar,
    ToggleTreeView,
    ToggleCodeView,
    ToggleFormView,
    ValidateJson,
    RepairJson,
    CompareFiles,
    GraphVisualizer,
    KeyboardShortcuts,
    ViewModesHelp,
    Documentation,
    NoRecent,
    ClearRecentFiles,
    /// A clickable recent-file item; the number encodes its position.
    RecentEntry(usize),
}

/// The token a recent-file identifier is emitted as; positions run
/// from 0 to 9, the region's capacity.
pub open spec fn spec_recent_token(i: int) -> Seq<char> {
    if i == 0 {
        "recent_file_0"@
    } else if i == 1 {
        "recent_file_1"@
    } else if i == 2 {
        "recent_file_2"@
    } else if i == 3 {
        "recent_file_3"@
    } else if i == 4 {
        "recent_file_4"@
    } else if i == 5 {
        "recent_file_5"@
    } else if i == 6 {
        "recent_file_6"@
    } else if i == 7 {
        "recent_file_7"@
    } else if i == 8 {
        "recent_file_8"@
    } else {
        "recent_file_9"@
    }
}

/// The string token each identifier is emitted as.
pub open spec fn spec_token(id: CommandId) -> Seq<char> {
    match id {
        CommandId::About => "about"@,
        CommandId::CheckForUpdates => "check_for_updates"@,
        CommandId::NewFile => "new_file"@,
        CommandId::OpenFile => "open_file"@,
        CommandId::SaveFile => "save_file"@,
        CommandId::SaveAs => "save_as"@,
        CommandId::CloseTab => "close_tab"@,
        CommandId::Undo => "undo"@,
        CommandId::Redo => "redo"@,
        CommandId::Find => "find"@,
        CommandId::FindReplace => "find_replace"@,
        CommandId::FormatDocument => "format_document"@,
        CommandId::ToggleSidebar => "toggle_sidebar"@,
        CommandId::ToggleTreeView => "toggle_tree_view"@,
        CommandId::ToggleCodeView => "toggle_code_view"@,
        CommandId::ToggleFormView => "toggle_form_view"@,
        CommandId::ValidateJson => "validate_json"@,
        CommandId::RepairJson => "repair_json"@,
        CommandId::CompareFiles => "compare_files"@,
        CommandId::GraphVisualizer => "graph_visualizer"@,
        CommandId::KeyboardShortcuts => "keyboard_shortcuts"@,
        CommandId::ViewModesHelp => "view_modes_help"@,
        CommandId::Documentation => "documentation"@,
        CommandId::NoRecent => "no_recent"@,
        CommandId::ClearRecentFiles => "clear_recent_files"@,
        CommandId::RecentEntry(i) => spec_recent_token(i as int),
    }
}

fn recent_token(i: usize) -> (r: String)
    requires
        i < 10,
    ensures
        r@ == spec_recent_token(i as int),
{
    if i == 0 {
        "recent_file_0".to_owned()
    } else if i == 1 {
        "recent_file_1".to_owned()
    } else if i == 2 {
        "recent_file_2".to_owned()
    } else if i == 3 {
        "recent_file_3".to_owned()
    } else if i == 4 {
        "recent_file_4".to_owned()
    } else if i == 5 {
        "recent_file_5".to_owned()
    } else if i == 6 {
        "recent_file_6".to_owned()
    } else if i == 7 {
        "recent_file_7".to_owned()
    } else if i == 8 {
        "recent_file_8".to_owned()
    } else {
        "recent_file_9".to_owned()
    }
}

impl CommandId {
    /// The string token this identifier is emitted as.
    pub fn token(&self) -> (r: String)
        requires
            self matches CommandId::RecentEntry(i) ==> i < 10,
        ensures
            r@ == spec_token(*self),
    {
        match self {
            CommandId::About => "about".to_owned(),
            CommandId::CheckForUpdates => "check_for_updates".to_owned(),
            CommandId::NewFile => "new_file".to_owned(),
            CommandId::OpenFile => "open_file".to_owned(),
            CommandId::SaveFile => "save_file".to_owned(),
            CommandId::SaveAs => "save_as".to_owned(),
            CommandId::CloseTab => "close_tab".to_owned(),
            CommandId::Undo => "undo".to_owned(),
            CommandId::Redo => "redo".to_owned(),
            CommandId::Find => "find".to_owned(),
            CommandId::FindReplace => "find_replace".to_owned(),
            CommandId::FormatDocument => "format_document".to_owned(),
            CommandId::ToggleSidebar => "toggle_sidebar".to_owned(),
            CommandId::ToggleTreeView => "toggle_tree_view".to_owned(),
            CommandId::ToggleCodeView => "toggle_code_view".to_owned(),
            CommandId::ToggleFormView => "toggle_form_view".to_owned(),
            CommandId::ValidateJson => "validate_json".to_owned(),
            CommandId::RepairJson => "repair_json".to_owned(),
            CommandId::CompareFiles => "compare_files".to_owned(),
            CommandId::GraphVisualizer => "graph_visualizer".to_owned(),
            CommandId::KeyboardShortcuts => "keyboard_shortcuts".to_owned(),
            CommandId::ViewModesHelp => "view_modes_help".to_owned(),
            CommandId::Documentation => "documentation".to_owned(),
            CommandId::NoRecent => "no_recent".to_owned(),
            CommandId::ClearRecentFiles => "clear_recent_files".to_owned(),
            CommandId::RecentEntry(i) => recent_token(*i),
        }
    }
}

/// One slot of the recent-files region.
pub enum RecentSlot {
    /// The disabled "No Recent Files" item, shown only when the list
    /// is empty.
    Placeholder,
    /// A clickable entry labeled by the UI-supplied display name; its
    /// identifier encodes its position.
    Entry { index: usize, name: String },
    Separator,
    /// The always-present trailing "Clear Recent Files" action.
    ClearAction,
}

/// The region holds either the placeholder or 1 to 10 real entries,
/// never both, and always ends with a separator and the clear action.
pub open spec fn placeholder_shape(s: Seq<RecentSlot>) -> bool {
    &&& s.len() == 3
    &&& s[0] is Placeholder
    &&& s[1] is Separator
    &&& s[2] is ClearAction
}

pub open spec fn entries_shape(s: Seq<RecentSlot>) -> bool {
    &&& 3 <= s.len() <= 12
    &&& forall|i: int|
        0 <= i < s.len() - 2 ==> ((#[trigger] s[i]) matches RecentSlot::Entry { index, .. }
            && index == i)
    &&& s[s.len() - 2] is Separator
    &&& s[s.len() - 1] is ClearAction
}

/// The mutable recent-files region of the menu tree.
pub struct RecentRegion {
    slots: Vec<RecentSlot>,
}

impl RecentRegion {
    /// The slots, top to bottom.
    pub closed spec fn slots(&self) -> Seq<RecentSlot> {
        self.slots@
    }

    /// The region invariant: placeholder shape or entries shape.
    pub open spec fn wf(&self) -> bool {
        placeholder_shape(self.slots()) || entries_shape(self.slots())
    }

    /// A freshly built region: the placeholder, a separator, and the
    /// clear action.
    pub fn new() -> (r: RecentRegion)
        ensures
            r.wf(),
            placeholder_shape(r.slots()),
    {
        let mut slots: Vec<RecentSlot> = Vec::new();
        slots.push(RecentSlot::Placeholder);
        slots.push(RecentSlot::Separator);
        slots.push(RecentSlot::ClearAction);
        RecentRegion { slots }
    }

    /// Replaces the whole region with what the UI supplied: with no
    /// entries, the disabled placeholder; otherwise the first ten
    /// entries, in input order, each labeled by its display name and
    /// identified by its position. Either way the separator and the
    /// clear action close the region. Replace-not-patch: the old
    /// contents are discarded wholesale.
    pub fn replace_recent(&mut self, entries: &Vec<RecentFile>)
        ensures
            final(self).wf(),
            entries@.len() == 0 ==> placeholder_shape(final(self).slots()),
            entries@.len() > 0 ==> ({
                let k = if entries@.len() < 10 {
                    entries@.len() as int
                } else {
                    10
                };
                &&& final(self).slots().len() == k + 2
                &&& forall|i: int|
                    0 <= i < k ==> ((#[trigger] final(self).slots()[i]) matches
                        RecentSlot::Entry { index, name } && index == i && name@ == entries@[
                        i
                    ].name@)
                &&& final(self).slots()[k] is Separator
                &&& final(self).slots()[k + 1] is ClearAction
            }),
    {
        let mut slots: Vec<RecentSlot> = Vec::new();
        if entries.len() == 0 {
            slots.push(RecentSlot::Placeholder);
        } else {
            let k: usize = if entries.len() < 10 {
                entries.len()
            } else {
                10
            };
            let mut i: usize = 0;
            while i < k
                invariant
                    i <= k <= entries@.len(),
                    slots@.len() == i,
                    forall|j: int|
                        0 <= j < i ==> ((#[trigger] slots@[j]) matches RecentSlot::Entry {
                            index,
                            name,
                        } && index == j && name@ == entries@[j].name@),
                decreases k - i,
            {
                let name = entries[i].name.clone();
                slots.push(RecentSlot::Entry { index: i, name });
                i += 1;
            }
        }
        slots.push(RecentSlot::Separator);
        slots.push(RecentSlot::ClearAction);
        self.slots = slots;
    }

    /// How many slots the region holds.
    pub fn slot_count(&self) -> (n: usize)
        ensures
            n == self.slots().len(),
    {
        self.slots.len()
    }

    /// The slot at `i`, top to bottom.
    pub fn slot_at(&self, i: usize) -> (r: &RecentSlot)
        requires
            i < self.slots().len(),
        ensures
            *r == self.slots()[i as int],
    {
        &self.slots[i]
    }
}

/// One item of a static submenu.
pub enum MenuItemModel {
    /// A clickable leaf carrying a command identifier, its label, and
    /// an optional accelerator.
    Command { id: CommandId, label: String, accelerator: Option<String> },
    /// A native item (hide, quit, cut, paste, fullscreen...); the
    /// platform handles it, no command token is emitted.
    Predefined { label: String },
    Separator,
    /// Where the mutable recent-files region hangs.
    RecentSubmenu,
}

/// One top-level submenu of the menu bar.
pub struct SubmenuModel {
    pub label: String,
    pub items: Vec<MenuItemModel>,
}

/// The command identifiers of a submenu's items, in order.
pub open spec fn item_ids(items: Seq<MenuItemModel>) -> Seq<CommandId>
    decreases items.len(),
{
    if items.len() == 0 {
        Seq::<CommandId>::empty()
    } else {
        item_ids(items.drop_last()) + (match items.last() {
            MenuItemModel::Command { id, .. } => seq![id],
            _ => Seq::<CommandId>::empty(),
        })
    }
}

/// The command identifiers of the whole bar, menu by menu.
pub open spec fn menu_ids(menus: Seq<SubmenuModel>) -> Seq<CommandId>
    decreases menus.len(),
{
    if menus.len() == 0 {
        Seq::<CommandId>::empty()
    } else {
        menu_ids(menus.drop_last()) + item_ids(menus.last().items@)
    }
}

/// The identifiers the static tree carries, in menu order.
pub open spec fn expected_menu_ids() -> Seq<CommandId> {
    seq![
        CommandId::About,
        CommandId::CheckForUpdates,
        CommandId::NewFile,
        CommandId::OpenFile,
        CommandId::SaveFile,
        CommandId::SaveAs,
        CommandId::CloseTab,
        CommandId::Undo,
        CommandId::Redo,
        CommandId::Find,
        CommandId::FindReplace,
        CommandId::FormatDocument,
        CommandId::ToggleSidebar,
        CommandId::ToggleTreeView,
        CommandId::ToggleCodeView,
        CommandId::ToggleFormView,
        CommandId::ValidateJson,
        CommandId::RepairJson,
        CommandId::CompareFiles,
        CommandId::GraphVisualizer,
        CommandId::KeyboardShortcuts,
        CommandId::ViewModesHelp,
        CommandId::Documentation,
    ]
}

/// The menu registry: the static tree and the mutable region.
pub struct MenuRegistry {
    pub menus: Vec<SubmenuModel>,
    pub recent: RecentRegion,
}

impl MenuRegistry {
    /// Builds the static tree: six menus, every clickable leaf with a
    /// stable identifier, the identifiers unique across the tree, and
    /// the recent-files region fresh (placeholder shape). The host
    /// renders this model; a native rejection there is fatal — the
    /// process must not start without a menu.
    pub fn build() -> (r: MenuRegistry)
        ensures
            menu_ids(r.menus@) == expected_menu_ids(),
            menu_ids(r.menus@).no_duplicates(),
            r.menus@.len() == 6,
            r.menus@[0].label@ == "Pandia"@,
            r.menus@[1].label@ == "File"@,
            r.menus@[2].label@ == "Edit"@,
            r.menus@[3].label@ == "View"@,
            r.menus@[4].label@ == "Tools"@,
            r.menus@[5].label@ == "Help"@,
            r.menus@[0].items@.len() == 8,
            r.menus@[1].items@.len() == 8,
            r.menus@[2].items@.len() == 12,
            r.menus@[3].items@.len() == 7,
            r.menus@[4].items@.len() == 5,
            r.menus@[5].items@.len() == 4,
            r.menus@[1].items@[2] is RecentSubmenu,
            r.recent.wf(),
            placeholder_shape(r.recent.slots()),
    {
        let mut app_items: Vec<MenuItemModel> = Vec::new();
        app_items.push(command(CommandId::About, "About Pandia", None));
        app_items.push(command(CommandId::CheckForUpdates, "Check for Updates...", None));
        app_items.push(MenuItemModel::Separator);
        app_items.push(predefined("Hide Pandia"));
        app_items.push(predefined("Hide Others"));
        app_items.push(predefined("Show All"));
        app_items.push(MenuItemModel::Separator);
        app_items.push(predefined("Quit Pandia"));
        let app_menu = submenu("Pandia", app_items);

        let mut file_items: Vec<MenuItemModel> = Vec::new();
        file_items.push(command(CommandId::NewFile, "New File", Some("CmdOrCtrl+N")));
        file_items.push(command(CommandId::OpenFile, "Open File...", Some("CmdOrCtrl+O")));
        file_items.push(MenuItemModel::RecentSubmenu);
        file_items.push(MenuItemModel::Separator);
        file_items.push(command(CommandId::SaveFile, "Save", Some("CmdOrCtrl+S")));
        file_items.push(command(CommandId::SaveAs, "Save As...", Some("CmdOrCtrl+Shift+S")));
        file_items.push(MenuItemModel::Separator);
        file_items.push(command(CommandId::CloseTab, "Close Tab", Some("CmdOrCtrl+W")));
        let file_menu = submenu("File", file_items);

        let mut edit_items: Vec<MenuItemModel> = Vec::new();
        edit_items.push(command(CommandId::Undo, "Undo", Some("CmdOrCtrl+Z")));
        edit_items.push(command(CommandId::Redo, "Redo", Some("CmdOrCtrl+Shift+Z")));
        edit_items.push(MenuItemModel::Separator);
        edit_items.push(predefined("Cut"));
        edit_items.push(predefined("Copy"));
        edit_items.push(predefined("Paste"));
        edit_items.push(predefined("Select All"));
        edit_items.push(MenuItemModel::Separator);
        edit_items.push(command(CommandId::Find, "Find...", Some("CmdOrCtrl+F")));
        edit_items.push(command(CommandId::FindReplace, "Find and Replace...", Some("CmdOrCtrl+H")));
        edit_items.push(MenuItemModel::Separator);
        edit_items.push(
            command(CommandId::FormatDocument, "Format Document", Some("CmdOrCtrl+Shift+F")),
        );
        let edit_menu = submenu("Edit", edit_items);

        let mut view_items: Vec<MenuItemModel> = Vec::new();
        view_items.push(command(CommandId::ToggleSidebar, "Toggle Sidebar", Some("CmdOrCtrl+B")));
        view_items.push(MenuItemModel::Separator);
        view_items.push(command(CommandId::ToggleTreeView, "Tree View", Some("CmdOrCtrl+1")));
        view_items.push(command(CommandId::ToggleCodeView, "Code View", Some("CmdOrCtrl+2")));
        view_items.push(command(CommandId::ToggleFormView, "Grid View", Some("CmdOrCtrl+3")));
        view_items.push(MenuItemModel::Separator);
        view_items.push(predefined("Toggle Fullscreen"));
        let view_menu = submenu("View", view_items);

        let mut tools_items: Vec<MenuItemModel> = Vec::new();
        tools_items.push(
            command(CommandId::ValidateJson, "Validate JSON", Some("CmdOrCtrl+Shift+V")),
        );
        tools_items.push(command(CommandId::RepairJson, "Repair JSON", None));
        tools_items.push(MenuItemModel::Separator);
        tools_items.push(command(CommandId::CompareFiles, "Compare Files", None));
        tools_items.push(command(CommandId::GraphVisualizer, "Graph Visualizer", None));
        let tools_menu = submenu("Tools", tools_items);

        let mut help_items: Vec<MenuItemModel> = Vec::new();
        help_items.push(
            command(CommandId::KeyboardShortcuts, "Keyboard Shortcuts", Some("CmdOrCtrl+/")),
        );
        help_items.push(command(CommandId::ViewModesHelp, "View Modes", None));
        help_items.push(MenuItemModel::Separator);
        help_items.push(command(CommandId::Documentation, "Documentation", None));
        let help_menu = submenu("Help", help_items);

        let mut menus: Vec<SubmenuModel> = Vec::new();
        menus.push(app_menu);
        menus.push(file_menu);
        menus.push(edit_menu);
        menus.push(view_menu);
        menus.push(tools_menu);
        menus.push(help_menu);
        let r = MenuRegistry { menus, recent: RecentRegion::new() };
        proof {
            reveal_with_fuel(item_ids, 13);
            reveal_with_fuel(menu_ids, 7);
            assert(menu_ids(r.menus@) =~= expected_menu_ids());
        }
        r
    }

    /// Translates a raw menu click into the token forwarded to the UI,
    /// or nothing when no surface is attached — the click is dropped.
    /// The registry re-emits the identifier opaquely; what it means
    /// belongs to the UI.
    pub fn on_click(&self, id: &CommandId, ui_attached: bool) -> (r: Option<String>)
        requires
            id matches CommandId::RecentEntry(i) ==> i < 10,
        ensures
            ui_attached <==> (r matches Some(t) && t@ == spec_token(*id)),
    {
        if ui_attached {
            Some(id.token())
        } else {
            None
        }
    }
}

fn command(id: CommandId, label: &str, accelerator: Option<&str>) -> (r: MenuItemModel)
    ensures
        r matches MenuItemModel::Command { id: i, label: l, accelerator: a } && i == id && l@
            == label@,
{
    let acc: Option<String> = match accelerator {
        Some(a) => Some(a.to_owned()),
        None => None,
    };
    MenuItemModel::Command { id, label: label.to_owned(), accelerator: acc }
}

fn predefined(label: &str) -> (r: MenuItemModel)
    ensures
        r matches MenuItemModel::Predefined { label: l } && l@ == label@,
{
    MenuItemModel::Predefined { label: label.to_owned() }
}

fn submenu(label: &str, items: Vec<MenuItemModel>) -> (r: SubmenuModel)
    ensures
        r.label@ == label@,
        r.items@ == items@,
{
    SubmenuModel { label: label.to_owned(), items }
}

} // verus!
