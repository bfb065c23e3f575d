//! Where the data is kept, and what is taken from the files found there.

use vstd::prelude::*;

use crate::config::{Config, ConfigView, HotkeyView};
use crate::config;
use crate::models;
use crate::models::{Day, TodoStore, TodoView};
use crate::text;

verus! {

/// The folder of the program in the user's data directory.
pub const APP_FOLDER: &'static str = "deskTodo";

/// The file of the to-do items.
pub const TODOS_FILE: &'static str = "todos.json";

/// The file of the configuration.
pub const CONFIG_FILE: &'static str = "config.json";

/// The file of the icon that notifications show.
pub const NOTIFY_ICON_FILE: &'static str = "notify_icon.png";

/// A folder for the data: the program's own in the user's data directory, or
/// one that the user has chosen.
pub enum DataDir<D> {
    /// The folder with this name in the user's data directory.
    Default { base: D, folder: &'static str },
    Custom(String),
}

/// What a folder for the data is.
pub enum DataDirView<D> {
    Default { base: D, folder: Seq<char> },
    Custom(Seq<char>),
}

impl<D> View for DataDir<D> {
    type V = DataDirView<D>;

    open spec fn view(&self) -> DataDirView<D> {
        match self {
            DataDir::Default { base, folder } => DataDirView::Default {
                base: *base,
                folder: folder@,
            },
            DataDir::Custom(path) => DataDirView::Custom(path@),
        }
    }
}

/// A file in a folder for the data.
pub struct DataFile<D> {
    pub dir: DataDir<D>,
    pub name: &'static str,
}

/// What a file in a folder for the data is.
pub struct DataFileView<D> {
    pub dir: DataDirView<D>,
    pub name: Seq<char>,
}

impl<D> View for DataFile<D> {
    type V = DataFileView<D>;

    open spec fn view(&self) -> DataFileView<D> {
        DataFileView { dir: self.dir@, name: self.name@ }
    }
}

/// What an optional folder is.
pub open spec fn dir_view<D>(dir: Option<DataDir<D>>) -> Option<DataDirView<D>> {
    match dir {
        Some(d) => Some(d@),
        None => None,
    }
}

/// What an optional file is.
pub open spec fn file_view<D>(file: Option<DataFile<D>>) -> Option<DataFileView<D>> {
    match file {
        Some(f) => Some(f@),
        None => None,
    }
}

/// The folder unless the user has chosen one: `deskTodo` in the user's data
/// directory `base`, none where there is no such directory.
pub open spec fn default_dir<D>(base: Option<D>) -> Option<DataDirView<D>> {
    match base {
        Some(b) => Some(DataDirView::Default { base: b, folder: APP_FOLDER@ }),
        None => None,
    }
}

/// The folder that the data is kept in: the chosen one, or else the default one.
pub open spec fn current_dir<D>(custom: Option<Seq<char>>, base: Option<D>) -> Option<
    DataDirView<D>,
> {
    match custom {
        Some(path) => Some(DataDirView::Custom(path)),
        None => default_dir(base),
    }
}

/// The file with a name in a folder.
pub open spec fn file_in<D>(dir: Option<DataDirView<D>>, name: Seq<char>) -> Option<DataFileView<D>> {
    match dir {
        Some(d) => Some(DataFileView { dir: d, name }),
        None => None,
    }
}

/// The folder unless the user has chosen one.
pub fn default_data_dir<D>(base: Option<D>) -> (dir: Option<DataDir<D>>)
    ensures
        dir_view(dir) == default_dir(base),
{
    match base {
        Some(b) => Some(DataDir::Default { base: b, folder: APP_FOLDER }),
        None => None,
    }
}

fn named_file<D>(dir: Option<DataDir<D>>, name: &'static str) -> (file: Option<DataFile<D>>)
    ensures
        file_view(file) == file_in(dir_view(dir), name@),
{
    match dir {
        Some(d) => Some(DataFile { dir: d, name }),
        None => None,
    }
}

/// The file of the configuration, which is always in the default folder.
pub fn config_file<D>(base: Option<D>) -> (file: Option<DataFile<D>>)
    ensures
        file_view(file) == file_in(default_dir(base), CONFIG_FILE@),
{
    named_file(default_data_dir(base), CONFIG_FILE)
}

/// The folder that the data is kept in, given the one that the user has chosen.
pub fn app_data_dir<D>(custom: Option<String>, base: Option<D>) -> (dir: Option<DataDir<D>>)
    ensures
        dir_view(dir) == current_dir(models::text_view(custom), base),
{
    match custom {
        Some(path) => Some(DataDir::Custom(path)),
        None => default_data_dir(base),
    }
}

/// The file of the to-do items.
pub fn data_file<D>(custom: Option<String>, base: Option<D>) -> (file: Option<DataFile<D>>)
    ensures
        file_view(file) == file_in(current_dir(models::text_view(custom), base), TODOS_FILE@),
{
    named_file(app_data_dir(custom, base), TODOS_FILE)
}

/// The file of the to-do items in the default folder.
pub fn default_data_file<D>(base: Option<D>) -> (file: Option<DataFile<D>>)
    ensures
        file_view(file) == file_in(default_dir(base), TODOS_FILE@),
{
    named_file(default_data_dir(base), TODOS_FILE)
}

/// The folder that the data is kept in, given the one that the user has chosen.
pub fn current_data_dir<D>(custom: Option<String>, base: Option<D>) -> (dir: Option<DataDir<D>>)
    ensures
        dir_view(dir) == current_dir(models::text_view(custom), base),
{
    app_data_dir(custom, base)
}

// ---------------------------------------------------------------------------
// The chosen folder

/// What `serde_json` finds under a field of a JSON text.
pub uninterp spec fn json_text(raw: Seq<char>, field: Seq<char>) -> Option<Seq<char>>;

/// `serde_json::from_str` to a `Value`, then `Value::get` and `Value::as_str`:
/// the text under `field` of the object that `raw` writes; `None` where `raw`
/// is no JSON, no object with that field, or the field holds no text.
#[verifier::external_body]
fn json_text_field(raw: &str, field: &str) -> (value: Option<String>)
    ensures
        models::text_view(value) == json_text(raw@, field@),
{
    let value: serde_json::Value = serde_json::from_str(raw).ok()?;
    Some(value.get(field)?.as_str()?.to_string())
}

/// The chosen folder, given what the configuration says: an empty text chooses none.
pub open spec fn chosen_dir(field: Option<Seq<char>>) -> Option<Seq<char>> {
    match field {
        Some(path) => if path.len() == 0 {
            None
        } else {
            Some(path)
        },
        None => None,
    }
}

/// The chosen folder, given what the configuration says.
pub fn chosen_data_dir(field: Option<String>) -> (dir: Option<String>)
    ensures
        models::text_view(dir) == chosen_dir(models::text_view(field)),
{
    match field {
        Some(path) => if path.as_str().unicode_len() == 0 {
            None
        } else {
            Some(path)
        },
        None => None,
    }
}

/// The folder that the raw configuration chooses.
pub open spec fn custom_dir_in(raw: Option<Seq<char>>) -> Option<Seq<char>> {
    match raw {
        Some(r) => chosen_dir(json_text(r, "data_dir"@)),
        None => None,
    }
}

/// The characters of an optional text.
pub open spec fn raw_view(raw: Option<&str>) -> Option<Seq<char>> {
    match raw {
        Some(r) => Some(r@),
        None => None,
    }
}

/// The folder that the raw configuration chooses; `raw` is `None` where the
/// file could not be read.
pub fn read_custom_data_dir(raw: Option<&str>) -> (dir: Option<String>)
    ensures
        models::text_view(dir) == custom_dir_in(raw_view(raw)),
{
    match raw {
        Some(r) => chosen_data_dir(json_text_field(r, "data_dir")),
        None => None,
    }
}

/// The chosen folder as it was last read, so that the file is read only once.
pub struct DirCache {
    known: Option<Option<String>>,
}

impl View for DirCache {
    type V = Option<Option<Seq<char>>>;

    closed spec fn view(&self) -> Option<Option<Seq<char>>> {
        match self.known {
            Some(dir) => Some(models::text_view(dir)),
            None => None,
        }
    }
}

impl DirCache {
    /// Nothing has been read yet.
    pub fn new() -> (cache: DirCache)
        ensures
            cache@ is None,
    {
        DirCache { known: None }
    }

    /// Whether the configuration has been read since the last change.
    pub fn is_known(&self) -> (yes: bool)
        ensures
            yes == (self@ is Some),
    {
        self.known.is_some()
    }
}

/// The chosen folder: the one that is known, else the one that the raw
/// configuration chooses.
pub open spec fn dir_known(known: Option<Option<Seq<char>>>, raw: Option<Seq<char>>) -> Option<
    Seq<char>,
> {
    match known {
        Some(dir) => dir,
        None => custom_dir_in(raw),
    }
}

/// The chosen folder: the one that is known, else the one that `raw` chooses,
/// which is known from then on.
pub fn custom_data_dir(cache: &mut DirCache, raw: Option<&str>) -> (dir: Option<String>)
    ensures
        models::text_view(dir) == dir_known(old(cache)@, raw_view(raw)),
        final(cache)@ == Some(dir_known(old(cache)@, raw_view(raw))),
{
    match &cache.known {
        Some(known) => models::copy_optional(known),
        None => {
            let dir = read_custom_data_dir(raw);
            cache.known = Some(models::copy_optional(&dir));
            dir
        },
    }
}

/// Forgets the chosen folder, so that the configuration is read again.
pub fn invalidate_data_dir_cache(cache: &mut DirCache)
    ensures
        final(cache)@ is None,
{
    cache.known = None;
}

/// A folder that is known stays the chosen one, whatever the configuration says
/// by now, until it is forgotten.
pub proof fn a_known_folder_is_not_read_again(first: Option<Seq<char>>, later: Option<Seq<char>>)
    ensures
        dir_known(Some(dir_known(None, first)), later) == dir_known(None, first),
        dir_known(None, later) == custom_dir_in(later),
{
}

// ---------------------------------------------------------------------------
// Saving

/// What is to be written down of the items, and the file to write it to, `None`
/// where there is no folder for it.
pub struct SavedTodos<D> {
    pub file: Option<DataFile<D>>,
    pub days: Vec<Day>,
}

/// Where the items go and what is to be written there: all lists, in the order
/// of their keys.
pub fn save_todos<D>(todos: &TodoStore, custom: Option<String>, base: Option<D>) -> (saved:
    SavedTodos<D>)
    requires
        todos.wf(),
    ensures
        file_view(saved.file) == file_in(
            current_dir(models::text_view(custom), base),
            TODOS_FILE@,
        ),
        models::days_view(saved.days@) == todos.written(),
{
    SavedTodos { file: data_file(custom, base), days: todos.to_days() }
}

// ---------------------------------------------------------------------------
// Loading

/// A file as a list of places to look at.
pub open spec fn place_of<D>(file: Option<DataFileView<D>>) -> Seq<DataFileView<D>> {
    match file {
        Some(f) => seq![f],
        None => Seq::empty(),
    }
}

/// The places where the items are looked for: first the file of the items, then
/// the one in the default folder.
pub open spec fn todo_places<D>(custom: Option<Seq<char>>, base: Option<D>) -> Seq<DataFileView<D>> {
    place_of(file_in(current_dir(custom, base), TODOS_FILE@)) + place_of(
        file_in(default_dir(base), TODOS_FILE@),
    )
}

/// What a list of files is.
pub open spec fn files_view<D>(files: Seq<DataFile<D>>) -> Seq<DataFileView<D>> {
    files.map_values(|file: DataFile<D>| file@)
}

/// The places where the items are looked for.
pub fn todo_files<D: Copy>(custom: Option<String>, base: Option<D>) -> (files: Vec<DataFile<D>>)
    ensures
        files_view(files@) == todo_places(models::text_view(custom), base),
{
    let mut files: Vec<DataFile<D>> = Vec::new();
    let ghost own = file_in(current_dir(models::text_view(custom), base), TODOS_FILE@);
    match data_file(custom, base) {
        Some(file) => {
            files.push(file);
        },
        None => {},
    }
    proof {
        assert(files_view(files@) =~= place_of(own));
    }
    match default_data_file(base) {
        Some(file) => {
            files.push(file);
        },
        None => {},
    }
    proof {
        assert(files_view(files@) =~= todo_places(models::text_view(custom), base));
    }
    files
}

/// What was found at the place of a file.
pub enum Found<T> {
    /// The file was read and understood.
    Read(T),
    /// There is a file, but it was not understood.
    Damaged,
    /// There is no file.
    Missing,
}

/// How many of the first places hold no file that was understood.
pub open spec fn unread<T>(found: Seq<Found<T>>) -> nat
    decreases found.len(),
{
    if found.len() == 0 || found[0] is Read {
        0
    } else {
        1 + unread(found.skip(1))
    }
}

/// What was loaded: the items, and the places with a damaged file that was passed over.
pub struct LoadedTodos {
    pub todos: TodoStore,
    pub damaged: Vec<usize>,
}

/// The places before `n` with a damaged file, in their order.
pub open spec fn damaged_before<T>(found: Seq<Found<T>>, n: int) -> Seq<usize>
    decreases n,
{
    if n <= 0 {
        Seq::empty()
    } else if found[n - 1] is Damaged {
        damaged_before(found, n - 1).push((n - 1) as usize)
    } else {
        damaged_before(found, n - 1)
    }
}

/// The items that were found: those in the first place that holds a file that
/// was understood; there are none where no place does.
pub open spec fn todos_found(found: Seq<Found<Vec<Day>>>) -> Map<Seq<char>, Seq<TodoView>> {
    if unread(found) < found.len() {
        models::gathered(models::days_view(found[unread(found) as int]->Read_0@))
    } else {
        Map::empty()
    }
}

/// Takes the items from the first place that holds a file that was understood.
pub fn load_todos(found: Vec<Found<Vec<Day>>>) -> (loaded: LoadedTodos)
    ensures
        loaded.todos.wf(),
        loaded.todos@ == todos_found(found@),
        loaded.damaged@ == damaged_before(found@, unread(found@) as int),
{
    let ghost all = found@;
    let total: usize = found.len();
    let mut rest = found;
    let mut damaged: Vec<usize> = Vec::new();
    let mut place: usize = 0;
    proof {
        assert(all.skip(0) =~= all);
    }
    while rest.len() > 0
        invariant
            all == found@,
            total == all.len(),
            place + rest@.len() == total,
            rest@ == all.skip(place as int),
            unread(all) == place + unread(rest@),
            damaged@ == damaged_before(all, place as int),
        decreases rest@.len(),
    {
        let ghost before = rest@;
        let first = rest.remove(0);
        proof {
            assert(first == all[place as int]);
            assert(rest@ =~= before.skip(1));
            assert(rest@ =~= all.skip(place + 1));
        }
        match first {
            Found::Read(days) => {
                return LoadedTodos { todos: TodoStore::from_days(days), damaged };
            },
            Found::Damaged => {
                damaged.push(place);
            },
            Found::Missing => {},
        }
        place += 1;
    }
    LoadedTodos { todos: TodoStore::new(), damaged }
}

/// The items that were saved are loaded again, with the same keys, the same order
/// and the same contents: the file that they are saved to is the first that is
/// looked at, and where it is understood as holding the lists that were to be
/// written there, these are the items. Saving them again writes the same lists.
pub proof fn saved_items_are_loaded_again<D>(
    todos: TodoStore,
    custom: Option<Seq<char>>,
    base: Option<D>,
    found: Seq<Found<Vec<Day>>>,
    loaded: TodoStore,
)
    requires
        todos.wf(),
        found.len() > 0,
        found[0] is Read,
        models::days_view(found[0]->Read_0@) == todos.written(),
        loaded.wf(),
        loaded@ == todos_found(found),
    ensures
        file_in(current_dir(custom, base), TODOS_FILE@) is Some ==> todo_places(custom, base)[0]
            == file_in(current_dir(custom, base), TODOS_FILE@)->0,
        loaded@ == todos@,
        loaded.written() == todos.written(),
{
    todos.written_days_read_back();
    loaded.same_lists_are_written_alike(todos);
}

/// A configuration, and whether a damaged file was passed over for it.
pub struct LoadedConfig {
    pub config: Config,
    pub damaged: bool,
}

/// The configuration that was found.
pub open spec fn config_found(found: Found<Config>) -> ConfigView {
    match found {
        Found::Read(config) => config@,
        _ => config::default_config(),
    }
}

/// Takes the configuration that was found, or the default one.
pub fn load_config(found: Found<Config>) -> (loaded: LoadedConfig)
    ensures
        loaded.config@ == config_found(found),
        loaded.damaged == (found is Damaged),
{
    match found {
        Found::Read(config) => LoadedConfig { config, damaged: false },
        Found::Damaged => LoadedConfig { config: Config::default(), damaged: true },
        Found::Missing => LoadedConfig { config: Config::default(), damaged: false },
    }
}

// ---------------------------------------------------------------------------
// What holds of files

/// The configuration is always `config.json` in the folder `deskTodo` of the
/// user's data directory. The items are `todos.json` in the folder that was
/// chosen, and in `deskTodo` where none was. Without any of these folders there
/// is no file.
pub proof fn files_have_their_places<D>(custom: Option<Seq<char>>, base: Option<D>)
    ensures
        base is None ==> file_in(default_dir(base), CONFIG_FILE@) is None,
        base matches Some(b) ==> file_in(default_dir(base), CONFIG_FILE@) == Some(
            DataFileView {
                dir: DataDirView::Default { base: b, folder: "deskTodo"@ },
                name: "config.json"@,
            },
        ),
        custom matches Some(path) ==> file_in(current_dir(custom, base), TODOS_FILE@) == Some(
            DataFileView { dir: DataDirView::<D>::Custom(path), name: "todos.json"@ },
        ),
        custom is None ==> (base matches Some(b) ==> file_in(
            current_dir(custom, base),
            TODOS_FILE@,
        ) == Some(
            DataFileView {
                dir: DataDirView::Default { base: b, folder: "deskTodo"@ },
                name: "todos.json"@,
            },
        )),
        custom is None && base is None ==> file_in(current_dir(custom, base), TODOS_FILE@) is None,
{
}

/// The items are looked for where they are written, and then in the default folder.
pub proof fn items_are_looked_for_where_they_are_written<D>(
    custom: Option<Seq<char>>,
    base: Option<D>,
)
    ensures
        ({
            let places = todo_places(custom, base);
            let own = file_in(current_dir(custom, base), TODOS_FILE@);
            let default = file_in(default_dir(base), TODOS_FILE@);
            &&& own matches Some(file) ==> places.len() > 0 && places[0] == file
            &&& default matches Some(file) ==> places.len() > 0 && places.last() == file
            &&& places.len() <= 2
            &&& own is None && default is None ==> places.len() == 0
        }),
{
}

/// The folder that was chosen is taken as it is written; an empty text chooses none.
pub proof fn empty_texts_choose_no_folder(field: Option<Seq<char>>)
    ensures
        field is None ==> chosen_dir(field) is None,
        field matches Some(path) ==> (path.len() == 0 ==> chosen_dir(field) is None),
        field matches Some(path) ==> (path.len() > 0 ==> chosen_dir(field) == Some(path)),
        custom_dir_in(None) is None,
        field matches Some(raw) ==> custom_dir_in(field) == chosen_dir(
            json_text(raw, "data_dir"@),
        ),
{
}

/// The first file that was understood gives the items, whatever stands behind
/// it; where none was, there are no items.
pub proof fn the_first_readable_file_counts(found: Seq<Found<Vec<Day>>>, k: int)
    requires
        0 <= k <= found.len(),
        forall|i: int| 0 <= i < k ==> !((#[trigger] found[i]) is Read),
        k < found.len() ==> found[k] is Read,
    ensures
        k < found.len() ==> todos_found(found) == models::gathered(
            models::days_view(found[k]->Read_0@),
        ),
        k == found.len() ==> todos_found(found) == Map::<Seq<char>, Seq<TodoView>>::empty(),
        unread(found) == k,
    decreases found.len(),
{
    if found.len() > 0 && k > 0 {
        let rest = found.skip(1);
        assert forall|i: int| 0 <= i < k - 1 implies !((#[trigger] rest[i]) is Read) by {
            assert(rest[i] == found[i + 1]);
        }
        assert(!(found[0] is Read));
        the_first_readable_file_counts(rest, k - 1);
    }
}

/// The damaged files that were passed over are told, each once, in their order.
pub proof fn damaged_files_are_told<T>(found: Seq<Found<T>>, n: int)
    requires
        0 <= n <= found.len() <= usize::MAX,
    ensures
        n < found.len() && found[n] is Damaged ==> damaged_before(found, n + 1) == damaged_before(
            found,
            n,
        ).push(n as usize),
        n < found.len() && !(found[n] is Damaged) ==> damaged_before(found, n + 1)
            == damaged_before(found, n),
        damaged_before(found, 0).len() == 0,
{
}

/// A configuration that was understood is taken as it is; otherwise the first
/// theme, full size and opacity, Ctrl, Alt and T, the default folder and the
/// level `info` hold.
pub proof fn configurations_are_taken_or_default(found: Found<Config>)
    ensures
        found matches Found::Read(config) ==> config_found(found) == config@,
        !(found is Read) ==> config_found(found) == (ConfigView {
            theme: 0,
            font_scale: 0x3f80_0000,
            opacity: 0x3f80_0000,
            hotkey: HotkeyView { ctrl: true, alt: true, shift: false, meta: false, key: "T"@ },
            data_dir: None,
            log_level: "info"@,
        }),
{
}

/// A folder that is known is the chosen one, whatever the configuration says by
/// now; one that is not is read from the configuration.
pub proof fn known_folders_hold(known: Option<Seq<char>>, raw: Option<Seq<char>>)
    ensures
        dir_known(Some(known), raw) == known,
        dir_known(None, raw) == custom_dir_in(raw),
{
}

/// A file is its name in its folder; the default folder is one in the user's
/// directory, and a chosen one stands for itself.
pub proof fn files_hold_their_fields<D>(file: DataFile<D>)
    ensures
        file@.name == file.name@,
        file@.dir == file.dir@,
        file.dir matches DataDir::Custom(path) ==> file@.dir == DataDirView::<D>::Custom(path@),
        file.dir matches DataDir::Default { base, folder } ==> file@.dir == (DataDirView::Default {
            base,
            folder: folder@,
        }),
{
}

} // verus!
