//! Menu definitions.

use vstd::prelude::*;

verus! {

pub struct MenuItem {
    pub label: &'static str,
    pub key: &'static str,
    pub description: &'static str,
}

pub open spec fn menu_view(v: Seq<MenuItem>) -> Seq<(Seq<char>, Seq<char>, Seq<char>)> {
    Seq::new(v.len(), |i: int| (v[i].label@, v[i].key@, v[i].description@))
}

/// The main menu, top to bottom: (label, key, description).
pub open spec fn main_menu() -> Seq<(Seq<char>, Seq<char>, Seq<char>)> {
    seq![
        ("Chat"@, "c"@, "Start an interactive AI conversation"@),
        ("Models"@, "m"@, "Browse, download, and manage models"@),
        ("System"@, "s"@, "Hardware info, RAM management, settings"@),
        ("Pull"@, "p"@, "Download a new model from HuggingFace"@),
        ("Serve"@, "v"@, "Start OpenAI-compatible API server"@),
        ("Quit"@, "q"@, "Exit Markus"@),
    ]
}

/// What can be done with a selected model: (label, key, description).
pub open spec fn model_action_menu() -> Seq<(Seq<char>, Seq<char>, Seq<char>)> {
    seq![
        ("Chat"@, "Enter"@, "Start chatting with this model"@),
        ("Serve"@, "s"@, "Serve this model as API server"@),
        ("Info"@, "i"@, "Show detailed model metadata"@),
        ("Delete"@, "d"@, "Remove model from disk"@),
        ("Back"@, "Esc"@, "Return to main menu"@),
    ]
}

/// Number of entries of the main menu.
pub const MAIN_MENU_LEN: usize = 6;

pub fn main_menu_items() -> (r: Vec<MenuItem>)
    ensures
        menu_view(r@) == main_menu(),
        r@.len() == MAIN_MENU_LEN,
{
    let r = vec![
        MenuItem { label: "Chat", key: "c", description: "Start an interactive AI conversation" },
        MenuItem { label: "Models", key: "m", description: "Browse, download, and manage models" },
        MenuItem { label: "System", key: "s", description: "Hardware info, RAM management, settings" },
        MenuItem { label: "Pull", key: "p", description: "Download a new model from HuggingFace" },
        MenuItem { label: "Serve", key: "v", description: "Start OpenAI-compatible API server" },
        MenuItem { label: "Quit", key: "q", description: "Exit Markus" },
    ];
    assert(menu_view(r@) =~= main_menu());
    r
}

pub fn model_actions() -> (r: Vec<MenuItem>)
    ensures
        menu_view(r@) == model_action_menu(),
{
    let r = vec![
        MenuItem { label: "Chat", key: "Enter", description: "Start chatting with this model" },
        MenuItem { label: "Serve", key: "s", description: "Serve this model as API server" },
        MenuItem { label: "Info", key: "i", description: "Show detailed model metadata" },
        MenuItem { label: "Delete", key: "d", description: "Remove model from disk" },
        MenuItem { label: "Back", key: "Esc", description: "Return to main menu" },
    ];
    assert(menu_view(r@) =~= model_action_menu());
    r
}

} // verus!
