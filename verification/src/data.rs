//! The entity types the store persists, with their mathematical views.

use vstd::prelude::*;
use vstd::string::*;

verus! {

/// View of an optional string as an optional character sequence.
pub open spec fn opt_str_view(o: Option<String>) -> Option<Seq<char>> {
    match o {
        Option::Some(s) => Option::Some(s@),
        Option::None => Option::None,
    }
}

/// View of [`Config`].
pub struct ConfigV {
    pub id: u8,
    pub theme: bool,
    pub precision: u8,
    pub k_map: Seq<char>,
    pub app_tab: Seq<char>,
    pub distortion_rate_tab: Seq<char>,
    pub todo_tab: Seq<char>,
}

/// The singleton user-preferences row; after initialization exactly one
/// such row exists, under the fixed id 1.
#[derive(Debug)]
pub struct Config {
    pub id: u8,
    /// `false` is the light theme, `true` the dark one.
    pub theme: bool,
    /// Decimal digits kept when rounding.
    pub precision: u8,
    /// Free-form user coefficient notes.
    pub k_map: String,
    /// Name of the selected top-level tab.
    pub app_tab: String,
    /// Name of the selected distortion-rate sub-tab.
    pub distortion_rate_tab: String,
    /// Name of the selected task-list sub-tab.
    pub todo_tab: String,
}

impl View for Config {
    type V = ConfigV;

    open spec fn view(&self) -> ConfigV {
        ConfigV {
            id: self.id,
            theme: self.theme,
            precision: self.precision,
            k_map: self.k_map@,
            app_tab: self.app_tab@,
            distortion_rate_tab: self.distortion_rate_tab@,
            todo_tab: self.todo_tab@,
        }
    }
}

/// The configuration row that initialization seeds when none exists.
pub open spec fn default_config_view() -> ConfigV {
    ConfigV {
        id: 1,
        theme: false,
        precision: 4,
        k_map: Seq::empty(),
        app_tab: "distortionRate"@,
        distortion_rate_tab: "通用"@,
        todo_tab: "全部"@,
    }
}

/// Builds the default configuration row.
pub fn default_config() -> (c: Config)
    ensures
        c@ == default_config_view(),
{
    let c = Config {
        id: 1,
        theme: false,
        precision: 4,
        k_map: String::new(),
        app_tab: String::from_str("distortionRate"),
        distortion_rate_tab: String::from_str("通用"),
        todo_tab: String::from_str("全部"),
    };
    assert(c@.k_map =~= default_config_view().k_map);
    c
}

/// View of [`ClientData`].
pub struct ClientDataV {
    pub machine: Option<Seq<char>>,
    pub width: Option<Seq<char>>,
    pub gears: Option<Seq<char>>,
    pub pitch: Option<Seq<char>>,
    pub girth: Option<Seq<char>>,
    pub count: Option<Seq<char>>,
    pub thickness: Option<Seq<char>>,
    pub distortion_rate: Option<Seq<char>>,
    pub trimmer: Option<Seq<char>>,
    pub note: Option<Seq<char>>,
}

/// One measurement record of a customer's press or plate configuration.
/// Any subset of the fields may be known, so every field is optional, and
/// values are kept as opaque text even where they mean numbers.
#[derive(Debug)]
pub struct ClientData {
    pub machine: Option<String>,
    pub width: Option<String>,
    pub gears: Option<String>,
    pub pitch: Option<String>,
    pub girth: Option<String>,
    pub count: Option<String>,
    pub thickness: Option<String>,
    pub distortion_rate: Option<String>,
    pub trimmer: Option<String>,
    pub note: Option<String>,
}

impl View for ClientData {
    type V = ClientDataV;

    open spec fn view(&self) -> ClientDataV {
        ClientDataV {
            machine: opt_str_view(self.machine),
            width: opt_str_view(self.width),
            gears: opt_str_view(self.gears),
            pitch: opt_str_view(self.pitch),
            girth: opt_str_view(self.girth),
            count: opt_str_view(self.count),
            thickness: opt_str_view(self.thickness),
            distortion_rate: opt_str_view(self.distortion_rate),
            trimmer: opt_str_view(self.trimmer),
            note: opt_str_view(self.note),
        }
    }
}

/// Views of a sequence of measurement records.
pub open spec fn data_views(s: Seq<ClientData>) -> Seq<ClientDataV> {
    s.map_values(|d: ClientData| d@)
}

/// Views of an optional list of measurement records.
pub open spec fn opt_data_views(o: Option<Vec<ClientData>>) -> Option<Seq<ClientDataV>> {
    match o {
        Option::Some(v) => Option::Some(data_views(v@)),
        Option::None => Option::None,
    }
}

/// View of [`Client`].
pub struct ClientV {
    pub id: u32,
    pub name: Seq<char>,
    pub trimmer_data: Option<Seq<ClientDataV>>,
    pub fixed_data: Option<Seq<ClientDataV>>,
}

/// A customer: a unique name with two independent lists of measurement
/// records, the error-trimming list and the fixed list.
#[derive(Debug)]
pub struct Client {
    /// Auto-assigned, stable row id.
    pub id: u32,
    pub name: String,
    pub trimmer_data: Option<Vec<ClientData>>,
    pub fixed_data: Option<Vec<ClientData>>,
}

impl View for Client {
    type V = ClientV;

    open spec fn view(&self) -> ClientV {
        ClientV {
            id: self.id,
            name: self.name@,
            trimmer_data: opt_data_views(self.trimmer_data),
            fixed_data: opt_data_views(self.fixed_data),
        }
    }
}

/// View of [`ClientRow`].
pub struct ClientRowV {
    pub id: u32,
    pub name: Seq<char>,
    pub trimmer_text: Option<Seq<char>>,
    pub fixed_text: Option<Seq<char>>,
}

/// A customer row exactly as the table stores it: the two measurement
/// lists are kept serialized, and either column may be null.
#[derive(Debug)]
pub struct ClientRow {
    pub id: u32,
    pub name: String,
    pub trimmer_text: Option<String>,
    pub fixed_text: Option<String>,
}

impl View for ClientRow {
    type V = ClientRowV;

    open spec fn view(&self) -> ClientRowV {
        ClientRowV {
            id: self.id,
            name: self.name@,
            trimmer_text: opt_str_view(self.trimmer_text),
            fixed_text: opt_str_view(self.fixed_text),
        }
    }
}

/// View of [`Todo`].
pub struct TodoV {
    pub id: u32,
    pub date: u64,
    pub content: Seq<char>,
    pub finished: bool,
    pub top: bool,
    pub top_time: u64,
    pub note: bool,
}

/// One task-list entry.  The creation timestamp `date` is the external
/// key for update and removal and never changes once created.
#[derive(Debug)]
pub struct Todo {
    /// Auto-assigned row id.
    pub id: u32,
    /// Caller-assigned creation timestamp, the addressing key.
    pub date: u64,
    pub content: String,
    pub finished: bool,
    /// Pinned entries sort ahead of others.
    pub top: bool,
    /// When the entry was last pinned, for tie-breaking among pinned ones.
    pub top_time: u64,
    /// Distinguishes a note-type entry from a task-type entry.
    pub note: bool,
}

impl View for Todo {
    type V = TodoV;

    open spec fn view(&self) -> TodoV {
        TodoV {
            id: self.id,
            date: self.date,
            content: self.content@,
            finished: self.finished,
            top: self.top,
            top_time: self.top_time,
            note: self.note,
        }
    }
}

/// Views of a sequence of task-list entries.
pub open spec fn todo_views(s: Seq<Todo>) -> Seq<TodoV> {
    s.map_values(|t: Todo| t@)
}

/// Views of a sequence of stored customer rows.
pub open spec fn client_row_views(s: Seq<ClientRow>) -> Seq<ClientRowV> {
    s.map_values(|r: ClientRow| r@)
}

} // verus!
