//! The application's menu, in the language of its user.
use vstd::prelude::*;
use crate::paths;
use crate::text;

verus! {

/// The page that the help menu leads to.
pub const WEBSITE: &'static str = "https://rocktier.com/pic2webp.html";

/// An entry that the platform brings along.
#[derive(Clone, Copy, Debug, PartialEq, Eq, Structural)]
pub enum Standard {
    Separator,
    Hide,
    HideOthers,
    Quit,
    CloseWindow,
    Undo,
    Redo,
    Cut,
    Copy,
    Paste,
    SelectAll,
    Minimize,
    Fullscreen,
}

/// An entry of a menu.
#[derive(Debug)]
pub enum MenuEntry {
    /// An entry of the application's own: what it is called inside, what it says, and its key.
    Item { id: String, label: String, key: Option<String> },
    /// The platform's entry about the application.
    About { label: String },
    /// Another entry that the platform brings along.
    Standard(Standard),
}

/// A menu with its title.
#[derive(Debug)]
pub struct MenuGroup {
    pub title: String,
    pub entries: Vec<MenuEntry>,
}

/// The content of a [`MenuEntry`].
pub enum EntryView {
    Item { id: Seq<char>, label: Seq<char>, key: Option<Seq<char>> },
    About { label: Seq<char> },
    Standard(Standard),
}

/// The content of a [`MenuGroup`].
pub struct GroupView {
    pub title: Seq<char>,
    pub entries: Seq<EntryView>,
}

impl View for MenuEntry {
    type V = EntryView;

    open spec fn view(&self) -> EntryView {
        match *self {
            MenuEntry::Item { id, label, key } => EntryView::Item {
                id: id@,
                label: label@,
                key: paths::text_of(key),
            },
            MenuEntry::About { label } => EntryView::About { label: label@ },
            MenuEntry::Standard(kind) => EntryView::Standard(kind),
        }
    }
}

impl View for MenuGroup {
    type V = GroupView;

    open spec fn view(&self) -> GroupView {
        GroupView { title: self.title@, entries: self.entries@.map_values(|e: MenuEntry| e@) }
    }
}

/// Whether a language is Chinese.
pub open spec fn chinese(lang: Seq<char>) -> bool {
    "zh"@.is_prefix_of(lang)
}

/// The text for a language.
pub open spec fn worded(zh: bool, in_chinese: Seq<char>, in_english: Seq<char>) -> Seq<char> {
    if zh {
        in_chinese
    } else {
        in_english
    }
}

/// The menu of the application itself.
pub open spec fn app_group(zh: bool) -> GroupView {
    GroupView {
        title: "Pic2WebP"@,
        entries: seq![
            EntryView::About { label: worded(zh, "关于 Pic2WebP"@, "About Pic2WebP"@) },
            EntryView::Standard(Standard::Separator),
            EntryView::Standard(Standard::Hide),
            EntryView::Standard(Standard::HideOthers),
            EntryView::Standard(Standard::Separator),
            EntryView::Standard(Standard::Quit),
        ],
    }
}

/// The menu for files.
pub open spec fn file_group(zh: bool) -> GroupView {
    GroupView {
        title: worded(zh, "文件"@, "File"@),
        entries: seq![
            EntryView::Item {
                id: "open"@,
                label: worded(zh, "打开图片…"@, "Open Images…"@),
                key: Some("CmdOrCtrl+O"@),
            },
            EntryView::Item {
                id: "clear"@,
                label: worded(zh, "清空列表"@, "Clear List"@),
                key: None,
            },
            EntryView::Standard(Standard::Separator),
            EntryView::Standard(Standard::CloseWindow),
        ],
    }
}

/// The menu for editing.
pub open spec fn edit_group(zh: bool) -> GroupView {
    GroupView {
        title: worded(zh, "编辑"@, "Edit"@),
        entries: seq![
            EntryView::Standard(Standard::Undo),
            EntryView::Standard(Standard::Redo),
            EntryView::Standard(Standard::Separator),
            EntryView::Standard(Standard::Cut),
            EntryView::Standard(Standard::Copy),
            EntryView::Standard(Standard::Paste),
            EntryView::Standard(Standard::SelectAll),
        ],
    }
}

/// The menu for the view.
pub open spec fn view_group(zh: bool) -> GroupView {
    GroupView {
        title: worded(zh, "显示"@, "View"@),
        entries: seq![
            EntryView::Item {
                id: "theme"@,
                label: worded(zh, "切换深浅主题"@, "Toggle Theme"@),
                key: None,
            },
        ],
    }
}

/// The menu for the window.
pub open spec fn window_group(zh: bool) -> GroupView {
    GroupView {
        title: worded(zh, "窗口"@, "Window"@),
        entries: seq![
            EntryView::Standard(Standard::Minimize),
            EntryView::Standard(Standard::Separator),
            EntryView::Standard(Standard::Fullscreen),
        ],
    }
}

/// The menu for help.
pub open spec fn help_group(zh: bool) -> GroupView {
    GroupView {
        title: worded(zh, "帮助"@, "Help"@),
        entries: seq![
            EntryView::Item {
                id: "website"@,
                label: worded(zh, "官方网站"@, "Website"@),
                key: None,
            },
        ],
    }
}

/// The whole menu for a language.
pub open spec fn menu_for(lang: Seq<char>) -> Seq<GroupView> {
    let zh = chinese(lang);
    seq![
        app_group(zh),
        file_group(zh),
        edit_group(zh),
        view_group(zh),
        window_group(zh),
        help_group(zh),
    ]
}

/// The text for a language.
fn word(zh: bool, in_chinese: &str, in_english: &str) -> (label: String)
    ensures
        label@ == worded(zh, in_chinese@, in_english@),
{
    if zh {
        in_chinese.to_owned()
    } else {
        in_english.to_owned()
    }
}

/// An entry of the application's own.
fn item(id: &str, label: String, key: Option<String>) -> (entry: MenuEntry)
    ensures
        entry@ == (EntryView::Item { id: id@, label: label@, key: paths::text_of(key) }),
{
    MenuEntry::Item { id: id.to_owned(), label, key }
}

/// The menu for a language: Chinese where its code begins with `zh`, else English.
pub fn build(lang: &str) -> (menu: Vec<MenuGroup>)
    ensures
        menu@.map_values(|g: MenuGroup| g@) == menu_for(lang@),
{
    let zh: bool = text::begins_with(lang, "zh");
    let app = MenuGroup {
        title: "Pic2WebP".to_owned(),
        entries: vec![
            MenuEntry::About { label: word(zh, "关于 Pic2WebP", "About Pic2WebP") },
            MenuEntry::Standard(Standard::Separator),
            MenuEntry::Standard(Standard::Hide),
            MenuEntry::Standard(Standard::HideOthers),
            MenuEntry::Standard(Standard::Separator),
            MenuEntry::Standard(Standard::Quit),
        ],
    };
    assert(app@.entries =~= app_group(zh).entries);
    let file = MenuGroup {
        title: word(zh, "文件", "File"),
        entries: vec![
            item(
                "open",
                word(zh, "打开图片…", "Open Images…"),
                Some("CmdOrCtrl+O".to_owned()),
            ),
            item("clear", word(zh, "清空列表", "Clear List"), None),
            MenuEntry::Standard(Standard::Separator),
            MenuEntry::Standard(Standard::CloseWindow),
        ],
    };
    assert(file@.entries =~= file_group(zh).entries);
    let edit = MenuGroup {
        title: word(zh, "编辑", "Edit"),
        entries: vec![
            MenuEntry::Standard(Standard::Undo),
            MenuEntry::Standard(Standard::Redo),
            MenuEntry::Standard(Standard::Separator),
            MenuEntry::Standard(Standard::Cut),
            MenuEntry::Standard(Standard::Copy),
            MenuEntry::Standard(Standard::Paste),
            MenuEntry::Standard(Standard::SelectAll),
        ],
    };
    assert(edit@.entries =~= edit_group(zh).entries);
    let view = MenuGroup {
        title: word(zh, "显示", "View"),
        entries: vec![item("theme", word(zh, "切换深浅主题", "Toggle Theme"), None)],
    };
    assert(view@.entries =~= view_group(zh).entries);
    let window = MenuGroup {
        title: word(zh, "窗口", "Window"),
        entries: vec![
            MenuEntry::Standard(Standard::Minimize),
            MenuEntry::Standard(Standard::Separator),
            MenuEntry::Standard(Standard::Fullscreen),
        ],
    };
    assert(window@.entries =~= window_group(zh).entries);
    let help = MenuGroup {
        title: word(zh, "帮助", "Help"),
        entries: vec![item("website", word(zh, "官方网站", "Website"), None)],
    };
    assert(help@.entries =~= help_group(zh).entries);
    let menu = vec![app, file, edit, view, window, help];
    assert(menu@.map_values(|g: MenuGroup| g@) =~= menu_for(lang@));
    menu
}

/// Whether two entries do the same, whatever they say.
pub open spec fn same_entry(a: EntryView, b: EntryView) -> bool {
    match (a, b) {
        (EntryView::Item { id, key, .. }, EntryView::Item { id: other, key: other_key, .. }) => id
            == other && key == other_key,
        (EntryView::About { .. }, EntryView::About { .. }) => true,
        (EntryView::Standard(kind), EntryView::Standard(other)) => kind == other,
        _ => false,
    }
}

/// The menu has the same groups, entries and keys in every language: only what they say differs.
pub proof fn law_menu_is_the_same_in_every_language(lang: Seq<char>, other: Seq<char>)
    ensures
        menu_for(lang).len() == menu_for(other).len(),
        forall|g: int|
            #![trigger menu_for(lang)[g]]
            0 <= g < menu_for(lang).len() ==> menu_for(lang)[g].entries.len()
                == menu_for(other)[g].entries.len() && forall|e: int|
                0 <= e < menu_for(lang)[g].entries.len() ==> same_entry(
                    #[trigger] menu_for(lang)[g].entries[e],
                    menu_for(other)[g].entries[e],
                ),
{
}

/// Whether an entry is one of the application's own, with this name, text and key.
pub open spec fn is_item(
    entry: MenuEntry,
    id: Seq<char>,
    label: Seq<char>,
    key: Option<Seq<char>>,
) -> bool {
    entry matches MenuEntry::Item { id: i, label: l, key: k } && i@ == id && l@ == label
        && paths::text_of(k) == key
}

/// Whether an entry is one that the platform brings along.
pub open spec fn is_standard(entry: MenuEntry, kind: Standard) -> bool {
    entry == MenuEntry::Standard(kind)
}

/// The menu has six groups: those of the application, of files, of editing, of the view, of the window
/// and of help, each with its entries in order, and it speaks Chinese exactly where the language begins
/// with `zh`.
pub proof fn law_what_is_on_the_menu(lang: &str, menu: Vec<MenuGroup>)
    requires
        call_ensures(build, (lang,), menu),
    ensures
        menu@.len() == 6,
        ({
            let zh = lang@.len() >= 2 && lang@[0] == 'z' && lang@[1] == 'h';
            let e = menu@[0].entries@;
            &&& menu@[0].title@ == "Pic2WebP"@ && e.len() == 6
            &&& e[0] matches MenuEntry::About { label } && label@ == if zh {
                "关于 Pic2WebP"@
            } else {
                "About Pic2WebP"@
            }
            &&& is_standard(e[1], Standard::Separator) && is_standard(e[2], Standard::Hide)
            &&& is_standard(e[3], Standard::HideOthers) && is_standard(e[4], Standard::Separator)
            &&& is_standard(e[5], Standard::Quit)
        }),
        ({
            let zh = lang@.len() >= 2 && lang@[0] == 'z' && lang@[1] == 'h';
            let (f, d) = (menu@[1].entries@, menu@[2].entries@);
            &&& menu@[1].title@ == (if zh { "文件"@ } else { "File"@ }) && f.len() == 4
            &&& is_item(
                f[0],
                "open"@,
                if zh { "打开图片…"@ } else { "Open Images…"@ },
                Some("CmdOrCtrl+O"@),
            )
            &&& is_item(f[1], "clear"@, if zh { "清空列表"@ } else { "Clear List"@ }, None)
            &&& is_standard(f[2], Standard::Separator) && is_standard(f[3], Standard::CloseWindow)
            &&& menu@[2].title@ == (if zh { "编辑"@ } else { "Edit"@ }) && d.len() == 7
            &&& is_standard(d[0], Standard::Undo) && is_standard(d[1], Standard::Redo)
            &&& is_standard(d[2], Standard::Separator) && is_standard(d[3], Standard::Cut)
            &&& is_standard(d[4], Standard::Copy) && is_standard(d[5], Standard::Paste)
            &&& is_standard(d[6], Standard::SelectAll)
        }),
        ({
            let zh = lang@.len() >= 2 && lang@[0] == 'z' && lang@[1] == 'h';
            let (v, w, h) = (menu@[3].entries@, menu@[4].entries@, menu@[5].entries@);
            &&& menu@[3].title@ == (if zh { "显示"@ } else { "View"@ }) && v.len() == 1
            &&& is_item(v[0], "theme"@, if zh { "切换深浅主题"@ } else { "Toggle Theme"@ }, None)
            &&& menu@[4].title@ == (if zh { "窗口"@ } else { "Window"@ }) && w.len() == 3
            &&& is_standard(w[0], Standard::Minimize) && is_standard(w[1], Standard::Separator)
            &&& is_standard(w[2], Standard::Fullscreen)
            &&& menu@[5].title@ == (if zh { "帮助"@ } else { "Help"@ }) && h.len() == 1
            &&& is_item(h[0], "website"@, if zh { "官方网站"@ } else { "Website"@ }, None)
        }),
{
    reveal_strlit("zh");
    let zh = lang@.len() >= 2 && lang@[0] == 'z' && lang@[1] == 'h';
    assert(chinese(lang@) == zh) by {
        if zh {
            assert("zh"@ =~= lang@.subrange(0, 2));
        } else if "zh"@.is_prefix_of(lang@) {
            assert(lang@.subrange(0, 2)[0] == 'z' && lang@.subrange(0, 2)[1] == 'h');
        }
    }
    let views = menu@.map_values(|g: MenuGroup| g@);
    assert(views == menu_for(lang@));
    assert(views.len() == menu@.len());
    assert forall|i: int| 0 <= i < 6 implies (#[trigger] menu@[i])@ == views[i] by {}
    assert forall|i: int, j: int| 0 <= i < 6 && 0 <= j < menu@[i].entries@.len() implies (
    #[trigger] menu@[i].entries@[j])@ == views[i].entries[j] by {
        assert(menu@[i]@ == views[i]);
    }
    assert forall|i: int| 0 <= i < 6 implies (#[trigger] menu@[i]).entries@.len()
        == views[i].entries.len() by {
        assert(menu@[i]@ == views[i]);
    }
}

} // verus!
