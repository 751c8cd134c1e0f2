//! The application menu: its layout, and what a click on an item asks for.
use vstd::prelude::*;
use crate::text::text_eq;

verus! {

/// The action behind a menu item.
#[derive(Debug, Clone, Copy, PartialEq, Eq)]
pub enum MenuAction {
    /// "open": pick a CSV file and load it.
    OpenCsv,
    /// "quit": ask for confirmation and exit.
    Quit,
    /// Any other item, which has no action yet.
    Unexpected,
}

/// The action of the menu item with identifier `id`.
pub fn menu_action(id: &str) -> (r: MenuAction)
    ensures
        id@ == "open"@ ==> r == MenuAction::OpenCsv,
        id@ == "quit"@ ==> r == MenuAction::Quit,
        id@ != "open"@ && id@ != "quit"@ ==> r == MenuAction::Unexpected,
{
    proof {
        reveal_strlit("open");
        reveal_strlit("quit");
        assert("quit"@[0] != "open"@[0]);
    }
    if text_eq(id, "open") {
        MenuAction::OpenCsv
    } else if text_eq(id, "quit") {
        MenuAction::Quit
    } else {
        MenuAction::Unexpected
    }
}

/// One menu item: the identifier that a click reports, and its label.
#[derive(Debug, Clone, Copy, PartialEq, Eq)]
pub struct MenuItem {
    pub id: &'static str,
    pub label: &'static str,
}

/// One top-level menu and its items, in display order.
#[derive(Debug, PartialEq, Eq)]
pub struct Submenu {
    pub title: &'static str,
    pub items: Vec<MenuItem>,
}

/// An item as (identifier, label).
pub open spec fn item_view(it: MenuItem) -> (Seq<char>, Seq<char>) {
    (it.id@, it.label@)
}

/// A menu as (title, items).
pub open spec fn submenu_view(m: Submenu) -> (Seq<char>, Seq<(Seq<char>, Seq<char>)>) {
    (m.title@, m.items@.map_values(|it: MenuItem| item_view(it)))
}

/// The menu bar: file, connection, unit, chart scale, editor, extra
/// functions and about menus.
pub open spec fn menu_bar() -> Seq<(Seq<char>, Seq<(Seq<char>, Seq<char>)>)> {
    seq![
        ("Файл"@, seq![("open"@, "Открыть"@), ("save_as"@, "Сохранить как"@), ("quit"@, "Выход"@)]),
        ("Подключение"@, seq![("flecs"@, "Flecs_4-20"@), ("crio"@, "Crio"@), ("OWEN 210"@, "OWEN 210"@)]),
        ("Агрегат"@, seq![("agregat_CA"@, "Агрегат ЦA"@), ("azotka"@, "Азотка"@)]),
        ("Масштаб"@, seq![("axis_auto"@, "Авторасширение осей"@), ("axis_manual"@, "Ручные пределы осей"@)]),
        ("Редактор"@, seq![("editor_job"@, "Редактор работ"@), ("editor_charts"@, "Редактор графиков"@)]),
        ("Доп. функции"@, seq![
            ("dop_functions_1"@, "Функция 1"@),
            ("dop_functions_2"@, "Функция 2"@),
            ("dop_functions_3"@, "Функция 3"@),
        ]),
        ("О программе"@, seq![("about_app"@, "О программе"@)]),
    ]
}

/// Identifier of item `j` of menu `i`.
pub open spec fn menu_id(i: int, j: int) -> Seq<char> {
    menu_bar()[i].1[j].0
}

/// Item `j` of menu `i` exists.
pub open spec fn is_menu_item(i: int, j: int) -> bool {
    0 <= i < menu_bar().len() && 0 <= j < menu_bar()[i].1.len()
}

/// Every item of the menu bar has its own identifier, so a click names
/// exactly one item.
pub proof fn lemma_menu_ids_distinct(i1: int, j1: int, i2: int, j2: int)
    requires
        is_menu_item(i1, j1),
        is_menu_item(i2, j2),
        menu_id(i1, j1) == menu_id(i2, j2),
    ensures
        i1 == i2 && j1 == j2,
{
    reveal_strlit("open");
    reveal_strlit("save_as");
    reveal_strlit("quit");
    reveal_strlit("flecs");
    reveal_strlit("crio");
    reveal_strlit("OWEN 210");
    reveal_strlit("agregat_CA");
    reveal_strlit("azotka");
    reveal_strlit("axis_auto");
    reveal_strlit("axis_manual");
    reveal_strlit("editor_job");
    reveal_strlit("editor_charts");
    reveal_strlit("dop_functions_1");
    reveal_strlit("dop_functions_2");
    reveal_strlit("dop_functions_3");
    reveal_strlit("about_app");
    let a = menu_id(i1, j1);
    let b = menu_id(i2, j2);
    assert(a.len() == b.len());
    assert(a[0] == b[0]);
    if a.len() > 1 {
        assert(a[1] == b[1]);
    }
    if a.len() == 15 {
        assert(a[14] == b[14]);
    }
}

/// Of all items, only the file menu's first ("open") and third ("quit")
/// have an action (`menu_action`); every other item has none.
pub proof fn lemma_menu_items_with_actions(i: int, j: int)
    requires
        is_menu_item(i, j),
    ensures
        menu_id(i, j) == "open"@ <==> (i == 0 && j == 0),
        menu_id(i, j) == "quit"@ <==> (i == 0 && j == 2),
{
    assert(is_menu_item(0, 0) && menu_id(0, 0) == "open"@);
    assert(is_menu_item(0, 2) && menu_id(0, 2) == "quit"@);
    if menu_id(i, j) == "open"@ {
        lemma_menu_ids_distinct(i, j, 0, 0);
    }
    if menu_id(i, j) == "quit"@ {
        lemma_menu_ids_distinct(i, j, 0, 2);
    }
}

fn item(id: &'static str, label: &'static str) -> (r: MenuItem)
    ensures
        r.id == id,
        r.label == label,
{
    MenuItem { id, label }
}

/// The layout of the menu bar (`menu_bar`).
pub fn menu_layout() -> (r: Vec<Submenu>)
    ensures
        r@.map_values(|m: Submenu| submenu_view(m)) == menu_bar(),
{
    let r = vec![
        Submenu {
            title: "Файл",
            items: vec![item("open", "Открыть"), item("save_as", "Сохранить как"), item("quit", "Выход")],
        },
        Submenu {
            title: "Подключение",
            items: vec![item("flecs", "Flecs_4-20"), item("crio", "Crio"), item("OWEN 210", "OWEN 210")],
        },
        Submenu { title: "Агрегат", items: vec![item("agregat_CA", "Агрегат ЦA"), item("azotka", "Азотка")] },
        Submenu {
            title: "Масштаб",
            items: vec![item("axis_auto", "Авторасширение осей"), item("axis_manual", "Ручные пределы осей")],
        },
        Submenu {
            title: "Редактор",
            items: vec![item("editor_job", "Редактор работ"), item("editor_charts", "Редактор графиков")],
        },
        Submenu {
            title: "Доп. функции",
            items: vec![
                item("dop_functions_1", "Функция 1"),
                item("dop_functions_2", "Функция 2"),
                item("dop_functions_3", "Функция 3"),
            ],
        },
        Submenu { title: "О программе", items: vec![item("about_app", "О программе")] },
    ];
    assert(r@.map_values(|m: Submenu| submenu_view(m)) =~~= menu_bar());
    r
}

} // verus!
