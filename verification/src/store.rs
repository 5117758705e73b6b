//! The store: sole owner of the database connection, with a verified
//! in-memory mirror of the three tables.
//!
//! Every mutation first executes the matching SQL statement and, only on
//! success, applies the same change to the mirror, so the contracts
//! below describe the table contents exactly for as long as this store
//! is the only writer — which exclusive ownership of the connection
//! makes structural.  Operations take the store by exclusive reference,
//! so any two calls happen in some serial order; see the laws module.

use vstd::prelude::*;
use vstd::string::*;

use crate::codec::{
    decode_client_data_lenient, enc_list, enc_opt_list, encode_client_data_list,
    encode_opt_client_data, lenient_list,
};
use crate::data::{
    client_row_views, data_views, default_config, default_config_view, opt_str_view, todo_views,
    Client, ClientData, ClientRow, ClientRowV, ClientV, Config, ConfigV, Todo, TodoV,
};
use crate::error::{DBError, ErrorKind};
use crate::sql;

verus! {

/// View of [`Store`]: the mirrored contents of the three tables.
pub struct StoreV {
    /// The config row, if one exists; the table never holds more than one.
    pub config: Option<ConfigV>,
    /// The client rows, in insertion order, serialized columns as stored.
    pub clients: Seq<ClientRowV>,
    /// The todo rows, in insertion order.
    pub todos: Seq<TodoV>,
}

/// Whether a client row with this name is present.
pub open spec fn name_taken(rows: Seq<ClientRowV>, name: Seq<char>) -> bool {
    exists|i: int| 0 <= i < rows.len() && rows[i].name == name
}

/// Whether any todo row carries this date key.
pub open spec fn date_taken(ts: Seq<TodoV>, date: u64) -> bool {
    exists|i: int| 0 <= i < ts.len() && ts[i].date == date
}

/// Client names are pairwise distinct, as the unique column demands.
pub open spec fn names_unique(rows: Seq<ClientRowV>) -> bool {
    forall|i: int, j: int|
        0 <= i < rows.len() && 0 <= j < rows.len() && i != j ==> rows[i].name != rows[j].name
}

/// The configuration after initialization: an existing row is kept, an
/// absent one is seeded with the defaults.
pub open spec fn seeded(c: Option<ConfigV>) -> Option<ConfigV> {
    if c is Some {
        c
    } else {
        Some(default_config_view())
    }
}

/// The configuration row an update leaves behind: the given values as one
/// unit, under the fixed id, whatever was there before.
pub open spec fn replaced(c: ConfigV) -> Option<ConfigV> {
    Some(
        ConfigV {
            id: 1,
            theme: c.theme,
            precision: c.precision,
            k_map: c.k_map,
            app_tab: c.app_tab,
            distortion_rate_tab: c.distortion_rate_tab,
            todo_tab: c.todo_tab,
        },
    )
}

/// A client row after update-client: the selected serialized column is
/// replaced, the other one and the identity are untouched.
pub open spec fn row_with_list(row: ClientRowV, text: Seq<char>, fixed: bool) -> ClientRowV {
    if fixed {
        ClientRowV { id: row.id, name: row.name, trimmer_text: row.trimmer_text, fixed_text: Some(text) }
    } else {
        ClientRowV { id: row.id, name: row.name, trimmer_text: Some(text), fixed_text: row.fixed_text }
    }
}

/// A todo row after update-todo: every payload field comes from the
/// update, id and the date key are kept.
pub open spec fn merged_todo(t: TodoV, u: TodoV) -> TodoV {
    TodoV {
        id: t.id,
        date: t.date,
        content: u.content,
        finished: u.finished,
        top: u.top,
        top_time: u.top_time,
        note: u.note,
    }
}

/// All todo rows with the update's date key replaced by its payload.
pub open spec fn todos_updated(ts: Seq<TodoV>, u: TodoV) -> Seq<TodoV> {
    ts.map(
        |i: int, t: TodoV|
            if t.date == u.date {
                merged_todo(t, u)
            } else {
                t
            },
    )
}

/// What one stored column yields on a lenient read.
pub open spec fn col_list(t: Option<Seq<char>>) -> Seq<crate::data::ClientDataV> {
    match t {
        Some(s) => lenient_list(s),
        None => Seq::empty(),
    }
}

/// What a listing shows for one stored row: both serialized columns
/// decoded leniently, so a damaged column degrades to an empty list and
/// the row is still returned.
pub open spec fn client_of_row(row: ClientRowV) -> ClientV {
    ClientV {
        id: row.id,
        name: row.name,
        trimmer_data: Some(col_list(row.trimmer_text)),
        fixed_data: Some(col_list(row.fixed_text)),
    }
}

/// The persistence core: one connection, one mirror of the tables.
pub struct Store {
    conn: rusqlite::Connection,
    config: Option<Config>,
    clients: Vec<ClientRow>,
    todos: Vec<Todo>,
}

impl View for Store {
    type V = StoreV;

    closed spec fn view(&self) -> StoreV {
        StoreV {
            config: match self.config {
                Some(c) => Some(c@),
                None => None,
            },
            clients: client_row_views(self.clients@),
            todos: todo_views(self.todos@),
        }
    }
}

fn clone_string(s: &String) -> (r: String)
    ensures
        r@ == s@,
{
    s.clone()
}

fn clone_config(c: &Config) -> (r: Config)
    ensures
        r@ == c@,
{
    Config {
        id: c.id,
        theme: c.theme,
        precision: c.precision,
        k_map: clone_string(&c.k_map),
        app_tab: clone_string(&c.app_tab),
        distortion_rate_tab: clone_string(&c.distortion_rate_tab),
        todo_tab: clone_string(&c.todo_tab),
    }
}

fn clone_todo(t: &Todo) -> (r: Todo)
    ensures
        r@ == t@,
{
    Todo {
        id: t.id,
        date: t.date,
        content: clone_string(&t.content),
        finished: t.finished,
        top: t.top,
        top_time: t.top_time,
        note: t.note,
    }
}

fn decode_col(t: &Option<String>) -> (r: Vec<ClientData>)
    ensures
        data_views(r@) == col_list(opt_str_view(*t)),
{
    match t {
        Some(s) => decode_client_data_lenient(s.as_str()),
        None => {
            let v: Vec<ClientData> = Vec::new();
            proof {
                assert(data_views(v@) =~= Seq::<crate::data::ClientDataV>::empty());
            }
            v
        },
    }
}

#[verifier::loop_isolation(false)]
fn client_names_distinct(v: &Vec<ClientRow>) -> (b: bool)
    ensures
        b == names_unique(client_row_views(v@)),
{
    let n = v.len();
    let mut i: usize = 0;
    while i < n
        invariant
            i <= n,
            forall|p: int, q: int| 0 <= p < i && p < q < n ==> v@[p].name@ != v@[q].name@,
        decreases n - i,
    {
        let mut j: usize = i + 1;
        while j < n
            invariant
                i < j <= n,
                forall|q: int| i < q < j ==> v@[i as int].name@ != v@[q].name@,
                forall|p: int, q: int| 0 <= p < i && p < q < n ==> v@[p].name@ != v@[q].name@,
            decreases n - j,
        {
            if v[i].name == v[j].name {
                assert(client_row_views(v@)[i as int].name == client_row_views(v@)[j as int].name);
                return false;
            }
            j = j + 1;
        }
        i = i + 1;
    }
    proof {
        assert forall|p: int, q: int|
            0 <= p < v@.len() && 0 <= q < v@.len() && p != q implies client_row_views(
            v@,
        )[p].name != client_row_views(v@)[q].name by {
            if p < q {
                assert(v@[p].name@ != v@[q].name@);
            } else {
                assert(v@[q].name@ != v@[p].name@);
            }
        }
    }
    true
}

impl Store {
    /// The store's invariant: mirrored client names are pairwise
    /// distinct, as the table's unique constraint demands.
    pub open spec fn wf(&self) -> bool {
        names_unique(self@.clients)
    }

    /// Opens a store over the given connection: makes sure the three
    /// tables exist and loads their rows into the mirror.  Does not seed
    /// the configuration; [`Store::init`] does.  A file whose rows cannot
    /// be read back, or whose client names collide — which only a foreign
    /// writer could have caused — is refused.
    pub fn new(conn: rusqlite::Connection) -> (r: Result<Store, DBError>)
        ensures
            match r {
                Ok(s) => s.wf(),
                Err(e) => e@.kind == ErrorKind::Storage,
            },
    {
        match sql::create_config_table(&conn) {
            Ok(()) => (),
            Err(m) => {
                return Err(DBError::new(ErrorKind::Storage, m));
            },
        }
        match sql::create_client_table(&conn) {
            Ok(()) => (),
            Err(m) => {
                return Err(DBError::new(ErrorKind::Storage, m));
            },
        }
        match sql::create_todo_table(&conn) {
            Ok(()) => (),
            Err(m) => {
                return Err(DBError::new(ErrorKind::Storage, m));
            },
        }
        let config = match sql::read_config_row(&conn) {
            Ok(c) => c,
            Err(m) => {
                return Err(DBError::new(ErrorKind::Storage, m));
            },
        };
        let clients = match sql::load_client_rows(&conn) {
            Ok(c) => c,
            Err(m) => {
                return Err(DBError::new(ErrorKind::Storage, m));
            },
        };
        let todos = match sql::load_todo_rows(&conn) {
            Ok(t) => t,
            Err(m) => {
                return Err(DBError::new(ErrorKind::Storage, m));
            },
        };
        if !client_names_distinct(&clients) {
            return Err(
                DBError::new(
                    ErrorKind::Storage,
                    String::from_str("stored client names are not unique"),
                ),
            );
        }
        Ok(Store { conn, config, clients, todos })
    }

    /// Makes sure the three tables exist and seeds the one default
    /// configuration row when none is present.  Idempotent: a second call
    /// finds the row it seeded and changes nothing.
    pub fn init(&mut self) -> (r: Result<(), DBError>)
        requires
            old(self).wf(),
        ensures
            final(self).wf(),
            match r {
                Ok(()) => final(self)@.config == seeded(old(self)@.config) && final(self)@.clients
                    == old(self)@.clients && final(self)@.todos == old(self)@.todos,
                Err(e) => final(self)@ == old(self)@ && e@.kind == ErrorKind::Storage,
            },
    {
        match sql::create_config_table(&self.conn) {
            Ok(()) => (),
            Err(m) => {
                return Err(DBError::new(ErrorKind::Storage, m));
            },
        }
        match sql::create_client_table(&self.conn) {
            Ok(()) => (),
            Err(m) => {
                return Err(DBError::new(ErrorKind::Storage, m));
            },
        }
        match sql::create_todo_table(&self.conn) {
            Ok(()) => (),
            Err(m) => {
                return Err(DBError::new(ErrorKind::Storage, m));
            },
        }
        if self.config.is_none() {
            let c = default_config();
            match sql::write_config_row(&self.conn, &c) {
                Ok(()) => {
                    self.config = Some(c);
                },
                Err(m) => {
                    return Err(DBError::new(ErrorKind::Storage, m));
                },
            }
        }
        Ok(())
    }

    /// Returns the configuration row.  It is absent only when
    /// initialization was skipped or a foreign writer deleted it; that
    /// case is a NotFound error, never a crash.
    pub fn get_config(&self) -> (r: Result<Config, DBError>)
        ensures
            match r {
                Ok(c) => self@.config == Some(c@),
                Err(e) => self@.config is None && e@.kind == ErrorKind::NotFound,
            },
    {
        match &self.config {
            Some(c) => Ok(clone_config(c)),
            None => Err(
                DBError::new(ErrorKind::NotFound, String::from_str("configuration row is missing")),
            ),
        }
    }

    /// Replaces the configuration in place under the fixed id, as one
    /// unit: on success the stored row is exactly the given one.
    pub fn update_config(&mut self, config: Config) -> (r: Result<(), DBError>)
        requires
            old(self).wf(),
        ensures
            final(self).wf(),
            match r {
                Ok(()) => final(self)@.config == replaced(config@) && final(self)@.clients == old(
                    self,
                )@.clients && final(self)@.todos == old(self)@.todos,
                Err(e) => final(self)@ == old(self)@ && e@.kind == ErrorKind::Storage,
            },
    {
        let c = Config {
            id: 1,
            theme: config.theme,
            precision: config.precision,
            k_map: config.k_map,
            app_tab: config.app_tab,
            distortion_rate_tab: config.distortion_rate_tab,
            todo_tab: config.todo_tab,
        };
        match sql::write_config_row(&self.conn, &c) {
            Ok(()) => {
                self.config = Some(c);
                Ok(())
            },
            Err(m) => Err(DBError::new(ErrorKind::Storage, m)),
        }
    }

    fn find_client(&self, name: &String) -> (r: Option<usize>)
        ensures
            match r {
                Some(i) => i < self@.clients.len() && self@.clients[i as int].name == name@,
                None => !name_taken(self@.clients, name@),
            },
    {
        let mut i: usize = 0;
        while i < self.clients.len()
            invariant
                i <= self.clients@.len(),
                forall|k: int| 0 <= k < i ==> self@.clients[k].name != name@,
            decreases self.clients@.len() - i,
        {
            if self.clients[i].name == *name {
                return Some(i);
            }
            i = i + 1;
        }
        None
    }

    /// Lists every client.  Each stored row is returned, its two
    /// serialized columns decoded leniently: a damaged column degrades to
    /// an empty list for that row alone, never failing the whole listing.
    pub fn get_clients(&self) -> (r: Result<Vec<Client>, DBError>)
        ensures
            match r {
                Ok(v) => v@.len() == self@.clients.len() && forall|i: int|
                    0 <= i < v@.len() ==> v@[i]@ == client_of_row(self@.clients[i]),
                Err(e) => false,
            },
    {
        let mut out: Vec<Client> = Vec::new();
        let mut i: usize = 0;
        while i < self.clients.len()
            invariant
                i <= self.clients@.len(),
                out@.len() == i,
                forall|k: int| 0 <= k < i ==> out@[k]@ == client_of_row(self@.clients[k]),
            decreases self.clients@.len() - i,
        {
            let row = &self.clients[i];
            let trimmer = decode_col(&row.trimmer_text);
            let fixed = decode_col(&row.fixed_text);
            let c = Client {
                id: row.id,
                name: clone_string(&row.name),
                trimmer_data: Some(trimmer),
                fixed_data: Some(fixed),
            };
            out.push(c);
            i = i + 1;
        }
        Ok(out)
    }

    /// Inserts a new client.  A name that is already present is a
    /// Conflict and leaves every row untouched; otherwise the new row is
    /// appended with both lists serialized.
    pub fn add_client(&mut self, client: Client) -> (r: Result<(), DBError>)
        requires
            old(self).wf(),
        ensures
            final(self).wf(),
            match r {
                Ok(()) => {
                    &&& !name_taken(old(self)@.clients, client@.name)
                    &&& final(self)@.clients.len() == old(self)@.clients.len() + 1
                    &&& final(self)@.clients.drop_last() == old(self)@.clients
                    &&& final(self)@.clients.last().name == client@.name
                    &&& final(self)@.clients.last().trimmer_text == Some(
                        enc_opt_list(client@.trimmer_data),
                    )
                    &&& final(self)@.clients.last().fixed_text == Some(
                        enc_opt_list(client@.fixed_data),
                    )
                    &&& final(self)@.config == old(self)@.config
                    &&& final(self)@.todos == old(self)@.todos
                },
                Err(e) => {
                    &&& final(self)@ == old(self)@
                    &&& (e@.kind == ErrorKind::Conflict <==> name_taken(
                        old(self)@.clients,
                        client@.name,
                    ))
                    &&& (e@.kind == ErrorKind::Conflict || e@.kind == ErrorKind::Storage)
                },
            },
    {
        match self.find_client(&client.name) {
            Some(_) => {
                return Err(
                    DBError::new(
                        ErrorKind::Conflict,
                        String::from_str("a client with this name already exists"),
                    ),
                );
            },
            None => (),
        }
        let trimmer_text = encode_opt_client_data(&client.trimmer_data);
        let fixed_text = encode_opt_client_data(&client.fixed_data);
        match sql::insert_client_row(&self.conn, &client.name, &trimmer_text, &fixed_text) {
            Err(m) => Err(DBError::new(ErrorKind::Storage, m)),
            Ok(()) => {
                let rowid = sql::last_insert_id(&self.conn);
                let id: u32 = if 0 <= rowid && rowid <= u32::MAX as i64 {
                    rowid as u32
                } else {
                    0
                };
                let row = ClientRow {
                    id,
                    name: client.name,
                    trimmer_text: Some(trimmer_text),
                    fixed_text: Some(fixed_text),
                };
                let ghost before = self@.clients;
                self.clients.push(row);
                proof {
                    assert(self@.clients =~= before.push(row@));
                    assert(self@.clients.drop_last() =~= before);
                    assert forall|p: int, q: int|
                        0 <= p < self@.clients.len() && 0 <= q < self@.clients.len() && p
                            != q implies self@.clients[p].name != self@.clients[q].name by {
                        if p == self@.clients.len() - 1 {
                            assert(self@.clients[q] == before[q]);
                        } else if q == self@.clients.len() - 1 {
                            assert(self@.clients[p] == before[p]);
                        } else {
                            assert(self@.clients[p] == before[p]);
                            assert(self@.clients[q] == before[q]);
                        }
                    }
                }
                Ok(())
            },
        }
    }

    /// Replaces one of the two measurement lists of the named client —
    /// the fixed list when `fixed` is set, the trimmer list otherwise —
    /// with the given records; the other list and every other client are
    /// untouched.  An unknown name is a NotFound error.
    pub fn update_client(&mut self, name: String, data: Vec<ClientData>, fixed: bool) -> (r:
        Result<(), DBError>)
        requires
            old(self).wf(),
        ensures
            final(self).wf(),
            match r {
                Ok(()) => {
                    &&& name_taken(old(self)@.clients, name@)
                    &&& final(self)@.clients.len() == old(self)@.clients.len()
                    &&& forall|i: int|
                        0 <= i < old(self)@.clients.len() ==> final(self)@.clients[i] == (if old(
                            self,
                        )@.clients[i].name == name@ {
                            row_with_list(
                                old(self)@.clients[i],
                                enc_list(data_views(data@)),
                                fixed,
                            )
                        } else {
                            old(self)@.clients[i]
                        })
                    &&& final(self)@.config == old(self)@.config
                    &&& final(self)@.todos == old(self)@.todos
                },
                Err(e) => {
                    &&& final(self)@ == old(self)@
                    &&& (e@.kind == ErrorKind::NotFound <==> !name_taken(
                        old(self)@.clients,
                        name@,
                    ))
                    &&& (e@.kind == ErrorKind::NotFound || e@.kind == ErrorKind::Storage)
                },
            },
    {
        let idx = match self.find_client(&name) {
            Some(i) => i,
            None => {
                return Err(
                    DBError::new(ErrorKind::NotFound, String::from_str("no client with this name")),
                );
            },
        };
        let text = encode_client_data_list(&data);
        let res = if fixed {
            sql::update_client_fixed(&self.conn, &name, &text)
        } else {
            sql::update_client_trimmer(&self.conn, &name, &text)
        };
        match res {
            Err(m) => Err(DBError::new(ErrorKind::Storage, m)),
            Ok(()) => {
                let ghost before = self@.clients;
                let old_row = self.clients.remove(idx);
                let new_row = if fixed {
                    ClientRow {
                        id: old_row.id,
                        name: old_row.name,
                        trimmer_text: old_row.trimmer_text,
                        fixed_text: Some(text),
                    }
                } else {
                    ClientRow {
                        id: old_row.id,
                        name: old_row.name,
                        trimmer_text: Some(text),
                        fixed_text: old_row.fixed_text,
                    }
                };
                self.clients.insert(idx, new_row);
                proof {
                    assert(self@.clients =~= before.update(
                        idx as int,
                        row_with_list(before[idx as int], text@, fixed),
                    ));
                    assert forall|i: int| 0 <= i < before.len() implies self@.clients[i] == (if before[i].name
                        == name@ {
                        row_with_list(before[i], enc_list(data_views(data@)), fixed)
                    } else {
                        before[i]
                    }) by {
                        if i != idx {
                            assert(before[i].name != before[idx as int].name);
                        }
                    }
                    assert forall|p: int, q: int|
                        0 <= p < self@.clients.len() && 0 <= q < self@.clients.len() && p
                            != q implies self@.clients[p].name != self@.clients[q].name by {
                        assert(self@.clients[p].name == before[p].name);
                        assert(self@.clients[q].name == before[q].name);
                    }
                }
                Ok(())
            },
        }
    }

    /// Removes the client with the given name.  Removing an absent name
    /// is a silent success, as deletion is keyed the same way insertion
    /// is and zero matches is not an error.
    pub fn remove_client(&mut self, name: String) -> (r: Result<(), DBError>)
        requires
            old(self).wf(),
        ensures
            final(self).wf(),
            match r {
                Ok(()) => {
                    &&& final(self)@.config == old(self)@.config
                    &&& final(self)@.todos == old(self)@.todos
                    &&& (if name_taken(old(self)@.clients, name@) {
                        exists|i: int|
                            0 <= i < old(self)@.clients.len() && old(self)@.clients[i].name
                                == name@ && final(self)@.clients == old(self)@.clients.remove(i)
                    } else {
                        final(self)@.clients == old(self)@.clients
                    })
                },
                Err(e) => final(self)@ == old(self)@ && e@.kind == ErrorKind::Storage,
            },
    {
        let idx = self.find_client(&name);
        match sql::delete_client_row(&self.conn, &name) {
            Err(m) => Err(DBError::new(ErrorKind::Storage, m)),
            Ok(()) => {
                match idx {
                    Some(i) => {
                        let ghost before = self@.clients;
                        self.clients.remove(i);
                        proof {
                            assert(self@.clients =~= before.remove(i as int));
                            assert(name_taken(before, name@));
                            assert forall|p: int, q: int|
                                0 <= p < self@.clients.len() && 0 <= q < self@.clients.len() && p
                                    != q implies self@.clients[p].name != self@.clients[q].name by {
                                let p0 = if p < i { p } else { p + 1 };
                                let q0 = if q < i { q } else { q + 1 };
                                assert(self@.clients[p] == before[p0]);
                                assert(self@.clients[q] == before[q0]);
                            }
                        }
                    },
                    None => (),
                }
                Ok(())
            },
        }
    }

    fn has_todo_date(&self, date: u64) -> (b: bool)
        ensures
            b == date_taken(self@.todos, date),
    {
        let mut i: usize = 0;
        while i < self.todos.len()
            invariant
                i <= self.todos@.len(),
                forall|k: int| 0 <= k < i ==> self@.todos[k].date != date,
            decreases self.todos@.len() - i,
        {
            if self.todos[i].date == date {
                proof {
                    assert(self@.todos[i as int].date == date);
                }
                return true;
            }
            i = i + 1;
        }
        false
    }

    /// Lists every todo row as stored; no decoding is involved.
    pub fn get_todo(&self) -> (r: Result<Vec<Todo>, DBError>)
        ensures
            match r {
                Ok(v) => v@.len() == self@.todos.len() && forall|i: int|
                    0 <= i < v@.len() ==> v@[i]@ == self@.todos[i],
                Err(e) => false,
            },
    {
        let mut out: Vec<Todo> = Vec::new();
        let mut i: usize = 0;
        while i < self.todos.len()
            invariant
                i <= self.todos@.len(),
                out@.len() == i,
                forall|k: int| 0 <= k < i ==> out@[k]@ == self@.todos[k],
            decreases self.todos@.len() - i,
        {
            out.push(clone_todo(&self.todos[i]));
            i = i + 1;
        }
        Ok(out)
    }

    /// Appends a todo row with the given date key, content and flags; the
    /// engine assigns the row id, the given one is ignored.  Nothing else
    /// changes.
    pub fn add_todo(&mut self, todo: Todo) -> (r: Result<(), DBError>)
        requires
            old(self).wf(),
        ensures
            final(self).wf(),
            match r {
                Ok(()) => {
                    &&& final(self)@.todos.len() == old(self)@.todos.len() + 1
                    &&& final(self)@.todos.drop_last() == old(self)@.todos
                    &&& final(self)@.todos.last().date == todo@.date
                    &&& final(self)@.todos.last().content == todo@.content
                    &&& final(self)@.todos.last().finished == todo@.finished
                    &&& final(self)@.todos.last().top == todo@.top
                    &&& final(self)@.todos.last().top_time == todo@.top_time
                    &&& final(self)@.todos.last().note == todo@.note
                    &&& final(self)@.config == old(self)@.config
                    &&& final(self)@.clients == old(self)@.clients
                },
                Err(e) => final(self)@ == old(self)@ && e@.kind == ErrorKind::Storage,
            },
    {
        match sql::insert_todo_row(&self.conn, &todo) {
            Err(m) => Err(DBError::new(ErrorKind::Storage, m)),
            Ok(()) => {
                let rowid = sql::last_insert_id(&self.conn);
                let id: u32 = if 0 <= rowid && rowid <= u32::MAX as i64 {
                    rowid as u32
                } else {
                    0
                };
                let ghost before = self@.todos;
                let row = Todo {
                    id,
                    date: todo.date,
                    content: todo.content,
                    finished: todo.finished,
                    top: todo.top,
                    top_time: todo.top_time,
                    note: todo.note,
                };
                self.todos.push(row);
                proof {
                    assert(self@.todos =~= before.push(row@));
                    assert(self@.todos.drop_last() =~= before);
                }
                Ok(())
            },
        }
    }

    /// Rewrites the payload of every todo row whose date equals the given
    /// one: content and flags come from the argument, id and date stay.
    /// A date no row carries is a NotFound error and changes nothing.
    pub fn update_todo(&mut self, todo: Todo) -> (r: Result<(), DBError>)
        requires
            old(self).wf(),
        ensures
            final(self).wf(),
            match r {
                Ok(()) => {
                    &&& date_taken(old(self)@.todos, todo@.date)
                    &&& final(self)@.todos == todos_updated(old(self)@.todos, todo@)
                    &&& final(self)@.config == old(self)@.config
                    &&& final(self)@.clients == old(self)@.clients
                },
                Err(e) => {
                    &&& final(self)@ == old(self)@
                    &&& (e@.kind == ErrorKind::NotFound <==> !date_taken(
                        old(self)@.todos,
                        todo@.date,
                    ))
                    &&& (e@.kind == ErrorKind::NotFound || e@.kind == ErrorKind::Storage)
                },
            },
    {
        if !self.has_todo_date(todo.date) {
            return Err(
                DBError::new(ErrorKind::NotFound, String::from_str("no todo with this date")),
            );
        }
        match sql::update_todo_rows(&self.conn, &todo) {
            Err(m) => Err(DBError::new(ErrorKind::Storage, m)),
            Ok(()) => {
                let ghost before = self@.todos;
                let ghost start = *self;
                let mut i: usize = 0;
                while i < self.todos.len()
                    invariant
                        i <= self.todos@.len(),
                        self.todos@.len() == before.len(),
                        self@.config == start@.config,
                        self@.clients == start@.clients,
                        forall|k: int|
                            0 <= k < i ==> self@.todos[k] == todos_updated(before, todo@)[k],
                        forall|k: int| i <= k < before.len() ==> self@.todos[k] == before[k],
                    decreases self.todos@.len() - i,
                {
                    if self.todos[i].date == todo.date {
                        let ghost cur = self@.todos;
                        let old_row = self.todos.remove(i);
                        let new_row = Todo {
                            id: old_row.id,
                            date: old_row.date,
                            content: clone_string(&todo.content),
                            finished: todo.finished,
                            top: todo.top,
                            top_time: todo.top_time,
                            note: todo.note,
                        };
                        self.todos.insert(i, new_row);
                        proof {
                            assert(self@.todos =~= cur.update(i as int, new_row@));
                            assert(new_row@ == merged_todo(before[i as int], todo@));
                        }
                    }
                    i = i + 1;
                }
                proof {
                    assert(self@.todos =~= todos_updated(before, todo@));
                }
                Ok(())
            },
        }
    }

    /// Deletes every todo row with the given date key.  A date no row
    /// carries is a NotFound error and changes nothing.
    pub fn remove_todo(&mut self, date: u64) -> (r: Result<(), DBError>)
        requires
            old(self).wf(),
        ensures
            final(self).wf(),
            match r {
                Ok(()) => {
                    &&& date_taken(old(self)@.todos, date)
                    &&& final(self)@.todos == old(self)@.todos.filter(
                        |t: TodoV| t.date != date,
                    )
                    &&& final(self)@.config == old(self)@.config
                    &&& final(self)@.clients == old(self)@.clients
                },
                Err(e) => {
                    &&& final(self)@ == old(self)@
                    &&& (e@.kind == ErrorKind::NotFound <==> !date_taken(old(self)@.todos, date))
                    &&& (e@.kind == ErrorKind::NotFound || e@.kind == ErrorKind::Storage)
                },
            },
    {
        if !self.has_todo_date(date) {
            return Err(
                DBError::new(ErrorKind::NotFound, String::from_str("no todo with this date")),
            );
        }
        match sql::delete_todo_rows(&self.conn, date) {
            Err(m) => Err(DBError::new(ErrorKind::Storage, m)),
            Ok(()) => {
                let ghost before = self@.todos;
                let kept = self.filter_todos_by_date(date);
                self.todos = kept;
                proof {
                    assert(self@.todos == before.filter(|t: TodoV| t.date != date));
                }
                Ok(())
            },
        }
    }

    #[verifier::loop_isolation(false)]
    fn filter_todos_by_date(&self, date: u64) -> (r: Vec<Todo>)
        ensures
            todo_views(r@) == self@.todos.filter(|t: TodoV| t.date != date),
    {
        let mut kept: Vec<Todo> = Vec::new();
        let mut i: usize = 0;
        proof {
            reveal_with_fuel(Seq::<_>::filter, 2);
            assert(self@.todos.take(0).filter(|t: TodoV| t.date != date) =~= Seq::<
                TodoV,
            >::empty());
            assert(todo_views(kept@) =~= Seq::<TodoV>::empty());
        }
        while i < self.todos.len()
            invariant
                i <= self.todos@.len(),
                todo_views(kept@) == self@.todos.take(i as int).filter(|t: TodoV| t.date != date),
            decreases self.todos@.len() - i,
        {
            let ghost prefix = self@.todos.take(i as int);
            proof {
                reveal_with_fuel(Seq::<_>::filter, 2);
                assert(self@.todos.take(i + 1).drop_last() =~= prefix);
                assert(self@.todos.take(i + 1).last() == self@.todos[i as int]);
            }
            if self.todos[i].date != date {
                let ghost kv = todo_views(kept@);
                kept.push(clone_todo(&self.todos[i]));
                proof {
                    reveal_with_fuel(Seq::<_>::filter, 2);
                    assert(todo_views(kept@) =~= kv.push(self@.todos[i as int]));
                    assert(todo_views(kept@) =~= self@.todos.take(i + 1).filter(
                        |t: TodoV| t.date != date,
                    ));
                }
            } else {
                proof {
                    reveal_with_fuel(Seq::<_>::filter, 2);
                    assert(todo_views(kept@) =~= self@.todos.take(i + 1).filter(
                        |t: TodoV| t.date != date,
                    ));
                }
            }
            i = i + 1;
        }
        proof {
            assert(self@.todos.take(self@.todos.len() as int) =~= self@.todos);
        }
        kept
    }

    #[verifier::loop_isolation(false)]
    fn filter_unfinished_todos(&self) -> (r: Vec<Todo>)
        ensures
            todo_views(r@) == self@.todos.filter(|t: TodoV| !t.finished),
    {
        let mut kept: Vec<Todo> = Vec::new();
        let mut i: usize = 0;
        proof {
            reveal_with_fuel(Seq::<_>::filter, 2);
            assert(self@.todos.take(0).filter(|t: TodoV| !t.finished) =~= Seq::<TodoV>::empty());
            assert(todo_views(kept@) =~= Seq::<TodoV>::empty());
        }
        while i < self.todos.len()
            invariant
                i <= self.todos@.len(),
                todo_views(kept@) == self@.todos.take(i as int).filter(|t: TodoV| !t.finished),
            decreases self.todos@.len() - i,
        {
            let ghost prefix = self@.todos.take(i as int);
            proof {
                reveal_with_fuel(Seq::<_>::filter, 2);
                assert(self@.todos.take(i + 1).drop_last() =~= prefix);
                assert(self@.todos.take(i + 1).last() == self@.todos[i as int]);
            }
            if !self.todos[i].finished {
                let ghost kv = todo_views(kept@);
                kept.push(clone_todo(&self.todos[i]));
                proof {
                    reveal_with_fuel(Seq::<_>::filter, 2);
                    assert(todo_views(kept@) =~= kv.push(self@.todos[i as int]));
                    assert(todo_views(kept@) =~= self@.todos.take(i + 1).filter(
                        |t: TodoV| !t.finished,
                    ));
                }
            } else {
                proof {
                    reveal_with_fuel(Seq::<_>::filter, 2);
                    assert(todo_views(kept@) =~= self@.todos.take(i + 1).filter(
                        |t: TodoV| !t.finished,
                    ));
                }
            }
            i = i + 1;
        }
        proof {
            assert(self@.todos.take(self@.todos.len() as int) =~= self@.todos);
        }
        kept
    }

    /// Deletes every finished todo row in one statement; the unfinished
    /// ones stay, in order.  Nothing to delete is a success.
    pub fn remove_finished_todo(&mut self) -> (r: Result<(), DBError>)
        requires
            old(self).wf(),
        ensures
            final(self).wf(),
            match r {
                Ok(()) => {
                    &&& final(self)@.todos == old(self)@.todos.filter(|t: TodoV| !t.finished)
                    &&& final(self)@.config == old(self)@.config
                    &&& final(self)@.clients == old(self)@.clients
                },
                Err(e) => final(self)@ == old(self)@ && e@.kind == ErrorKind::Storage,
            },
    {
        match sql::delete_finished_todo_rows(&self.conn) {
            Err(m) => Err(DBError::new(ErrorKind::Storage, m)),
            Ok(()) => {
                let ghost before = self@.todos;
                let kept = self.filter_unfinished_todos();
                self.todos = kept;
                proof {
                    assert(self@.todos == before.filter(|t: TodoV| !t.finished));
                }
                Ok(())
            },
        }
    }
}

} // verus!
