//! The in-editor command console: command history, command parsing,
//! argument lookup, tab completion and the decision of what a command does.
use vstd::prelude::*;
use crate::mtb_editor::completion::{get_most_similar_alphabetically, prefix_score};
use crate::text::{
    alphanumeric, char_len_utf8, char_utf8_len, is_alphanumeric, utf8_len,
    chars_eq, chars_of, contains, contains_chars, lemma_split_on_nonempty, parse_unsigned,
    parse_unsigned_chars, remove_all, remove_all_chars, split_chars, split_on, split_words, string_of,
    trim, trim_chars, words,
};

verus! {

/// What has been typed into the console so far.
pub struct ConsoleInput {
    pub text: String,
}

/// Whether the console is open.
#[derive(Debug, Clone, Copy, PartialEq, Eq, Structural)]
pub enum ConsoleState {
    Off,
    On,
}

/// The plane id that `set id:<n>` chose for later commands.
pub struct PlaneSetID(pub u32);

/// Commands sent so far, oldest first, and the one the arrow keys point at.
pub struct SentCommands {
    pub data: Vec<String>,
    pub index: usize,
}

/// Where the history cursor lands after moving `move_by` steps from `index` in
/// a history of `len` commands: clamped to the last command, then to zero.
pub open spec fn moved_index(len: nat, index: int, move_by: int) -> int {
    let n = index + move_by;
    let n1 = if n >= len { len - 1 } else { n };
    if n1 <= 0 {
        0
    } else {
        n1
    }
}

/// Where the history cursor lands (see `moved_index`).
fn moved_index_of(len: usize, index: usize, move_by: i32) -> (r: usize)
    requires
        len <= i32::MAX,
        index <= i32::MAX,
        i32::MIN <= index + move_by <= i32::MAX,
    ensures
        r == moved_index(len as nat, index as int, move_by as int),
{
    let len = len as i64;
    let mut new_index: i64 = index as i64 + move_by as i64;
    if new_index >= len {
        new_index = len - 1;
    }
    if new_index <= 0 {
        new_index = 0;
    }
    new_index as usize
}

impl SentCommands {
    /// Moves the history cursor by `move_by`, keeping it on a stored command
    /// (on zero when the history is empty).
    pub fn move_index(&mut self, move_by: i32)
        requires
            old(self).data@.len() <= i32::MAX,
            old(self).index <= i32::MAX,
            i32::MIN <= old(self).index + move_by <= i32::MAX,
        ensures
            final(self).data@ == old(self).data@,
            final(self).index == moved_index(old(self).data@.len(), old(self).index as int, move_by as int),
    {
        self.index = moved_index_of(self.data.len(), self.index, move_by);
    }

    /// Points the history cursor at the newest command.
    pub fn set_last_as_index(&mut self)
        requires
            old(self).data@.len() > 0,
        ensures
            final(self).data@ == old(self).data@,
            final(self).index == old(self).data@.len() - 1,
    {
        self.index = self.data.len() - 1;
    }
}

/// The console's commands.
#[derive(Debug, Clone, Copy, PartialEq, Eq, Structural)]
pub enum Funcs {
    NewPlaneData,
    PlaneData,
    SetID,
    WireFrame,
    NewColor,
    Editor,
    View,
}

/// The command that a command word names, if any.
pub open spec fn func_of(s: Seq<char>) -> Option<Funcs> {
    if s == "set"@ {
        Some(Funcs::SetID)
    } else if s == "npd"@ {
        Some(Funcs::NewPlaneData)
    } else if s == "pd"@ {
        Some(Funcs::PlaneData)
    } else if s == "wf"@ {
        Some(Funcs::WireFrame)
    } else if s == "nc"@ {
        Some(Funcs::NewColor)
    } else if s == "e"@ {
        Some(Funcs::Editor)
    } else if s == "v"@ {
        Some(Funcs::View)
    } else {
        None
    }
}

/// The command that the first word of `text` names, if `text` has a word.
pub open spec fn func_of_text(text: Seq<char>) -> Option<Funcs> {
    if words(text).len() >= 1 {
        func_of(words(text)[0])
    } else {
        None
    }
}

impl Funcs {
    /// The command that a command word names.
    pub fn from_chars(w: &Vec<char>) -> (r: Result<Funcs, ()>)
        ensures
            r == match func_of(w@) {
                Some(f) => Ok::<Funcs, ()>(f),
                None => Err(()),
            },
    {
        if chars_eq(w, "set") {
            Ok(Funcs::SetID)
        } else if chars_eq(w, "npd") {
            Ok(Funcs::NewPlaneData)
        } else if chars_eq(w, "pd") {
            Ok(Funcs::PlaneData)
        } else if chars_eq(w, "wf") {
            Ok(Funcs::WireFrame)
        } else if chars_eq(w, "nc") {
            Ok(Funcs::NewColor)
        } else if chars_eq(w, "e") {
            Ok(Funcs::Editor)
        } else if chars_eq(w, "v") {
            Ok(Funcs::View)
        } else {
            Err(())
        }
    }

    /// The command that a command word names.
    pub fn from_str(input: &str) -> (r: Result<Funcs, ()>)
        ensures
            r == match func_of(input@) {
                Some(f) => Ok::<Funcs, ()>(f),
                None => Err(()),
            },
    {
        let w = chars_of(input);
        Funcs::from_chars(&w)
    }
}

/// The argument names a command offers for completion.
pub open spec fn func_args_of(f: Funcs) -> Seq<Seq<char>> {
    match f {
        Funcs::NewPlaneData => seq!["id"@, "loc"@, "dims"@, "subs"@],
        Funcs::PlaneData => seq!["id"@, "loc"@, "dims"@, "subs"@, "mod"@, "clr"@, "active"@],
        Funcs::SetID => seq!["id"@],
        _ => seq![""@],
    }
}

/// The text an argument `name:value` starts with.
pub open spec fn arg_key(name: Seq<char>) -> Seq<char> {
    name.push(':')
}

/// The value of the first argument that holds `name:`: that argument with
/// every `name:` removed.
pub open spec fn search_arg(name: Seq<char>, args: Seq<Seq<char>>) -> Option<Seq<char>>
    decreases args.len(),
{
    if args.len() == 0 {
        None
    } else if contains(args[0], arg_key(name)) {
        Some(remove_all(args[0], arg_key(name)))
    } else {
        search_arg(name, args.drop_first())
    }
}

/// The value of argument `name` among `args` (see `search_arg`).
pub fn search_arg_chars(name: &Vec<char>, args: &Vec<Vec<char>>) -> (r: Option<Vec<char>>)
    ensures
        match search_arg(name@, args@.map_values(|a: Vec<char>| a@)) {
            Some(v) => r is Some && r->0@ == v,
            None => r is None,
        },
{
    let mut key = name.clone();
    key.push(':');
    let ghost all = args@.map_values(|a: Vec<char>| a@);
    let mut i: usize = 0;
    proof {
        assert(key@ == arg_key(name@));
        assert(all.skip(0) =~= all);
    }
    while i < args.len()
        invariant
            i <= args.len(),
            all == args@.map_values(|a: Vec<char>| a@),
            key@ == arg_key(name@),
            search_arg(name@, all) == search_arg(name@, all.skip(i as int)),
        decreases args.len() - i,
    {
        proof {
            let t = all.skip(i as int);
            assert(t[0] == args@[i as int]@);
            assert(t.drop_first() =~= all.skip(i + 1));
        }
        if contains_chars(&args[i], &key) {
            let v = remove_all_chars(&args[i], &key);
            return Some(v);
        }
        i += 1;
    }
    proof {
        assert(all.skip(i as int).len() == 0);
    }
    None
}

/// The value of argument `arg_name` among `args`: the first argument holding
/// `arg_name:`, with that text removed.
pub fn search_arg_value(arg_name: &str, args: &Vec<&str>) -> (r: Option<String>)
    ensures
        match search_arg(arg_name@, args@.map_values(|a: &str| a@)) {
            Some(v) => r is Some && r->0@ == v,
            None => r is None,
        },
{
    let name = chars_of(arg_name);
    let mut cargs: Vec<Vec<char>> = Vec::new();
    let mut i: usize = 0;
    while i < args.len()
        invariant
            i <= args.len(),
            cargs@.len() == i,
            forall|k: int| 0 <= k < i ==> #[trigger] cargs@[k]@ == args@[k]@,
        decreases args.len() - i,
    {
        cargs.push(chars_of(args[i]));
        i += 1;
    }
    proof {
        assert(cargs@.map_values(|a: Vec<char>| a@) =~= args@.map_values(|a: &str| a@));
    }
    match search_arg_chars(&name, &cargs) {
        Some(v) => Some(string_of(&v)),
        None => None,
    }
}

/// The words of the console text.
pub fn console_words(console: &ConsoleInput) -> (r: Vec<Vec<char>>)
    ensures
        r@.map_values(|a: Vec<char>| a@) == words(console.text@),
{
    let t = chars_of(console.text.as_str());
    let r = split_words(&t);
    proof {
        assert(r@.map_values(|a: Vec<char>| a@) =~= words(console.text@));
    }
    r
}

/// The argument names to complete from, when the console text starts with a
/// command word.
pub fn get_func_args(console: &ConsoleInput) -> (r: Option<Vec<&'static str>>)
    ensures
        match func_of_text(console.text@) {
            Some(f) => r is Some && r->0@.map_values(|a: &str| a@) == func_args_of(f),
            None => r is None,
        },
{
    let ws = console_words(console);
    proof {
        assert(ws@.len() == words(console.text@).len());
    }
    if ws.len() >= 1 {
        proof {
            assert(ws@[0]@ == ws@.map_values(|a: Vec<char>| a@)[0]);
        }
        match Funcs::from_chars(&ws[0]) {
            Ok(f) => {
                let v: Vec<&'static str> = match f {
                    Funcs::NewPlaneData => vec!["id", "loc", "dims", "subs"],
                    Funcs::PlaneData => vec!["id", "loc", "dims", "subs", "mod", "clr", "active"],
                    Funcs::SetID => vec!["id"],
                    Funcs::WireFrame => vec![""],
                    Funcs::NewColor => vec![""],
                    Funcs::Editor => vec![""],
                    Funcs::View => vec![""],
                };
                proof {
                    assert(v@.map_values(|a: &str| a@) =~= func_args_of(f));
                }
                return Some(v);
            },
            Err(_) => {},
        }
    }
    None
}

/// The word being typed, offered for completion: the last word of a text of
/// at least two words, unless it already holds a `:`.
pub open spec fn last_arg_of(text: Seq<char>) -> Option<Seq<char>> {
    let ws = words(text);
    if ws.len() >= 2 && !contains(ws.last(), ":"@) {
        Some(ws.last())
    } else {
        None
    }
}

/// The last word of the console text, when it can be completed.
pub fn get_last(console: &ConsoleInput) -> (r: Option<String>)
    ensures
        match last_arg_of(console.text@) {
            Some(v) => r is Some && r->0@ == v,
            None => r is None,
        },
{
    let ws = console_words(console);
    proof {
        assert(ws@.len() == words(console.text@).len());
    }
    if ws.len() >= 2 {
        let last = &ws[ws.len() - 1];
        proof {
            assert(last@ == ws@.map_values(|a: Vec<char>| a@)[ws@.len() - 1]);
        }
        let colon = chars_of(":");
        if !contains_chars(last, &colon) {
            return Some(string_of(last));
        }
    }
    None
}

/// Reads a plain unsigned number as `u32` (`None` when it is not one).
pub fn unpack_u32(arg_str: &str, func_name: &str, par_name: &str) -> (r: Option<u32>)
    ensures
        match parse_unsigned(arg_str@, u32::MAX as nat) {
            Some(v) => r == Some(v as u32),
            None => r is None,
        },
{
    let c = chars_of(arg_str);
    unpack_u32_chars(&c)
}

/// Reads a plain unsigned number as `u32`.
pub fn unpack_u32_chars(c: &Vec<char>) -> (r: Option<u32>)
    ensures
        match parse_unsigned(c@, u32::MAX as nat) {
            Some(v) => r == Some(v as u32),
            None => r is None,
        },
{
    match parse_unsigned_chars(c, 0xffff_ffffu64) {
        Some(v) => Some(v as u32),
        None => None,
    }
}

/// Reads a plain unsigned number as `usize` (`None` when it is not one).
pub fn unpack_usize(arg_str: &str, func_name: &str, par_name: &str) -> (r: Option<usize>)
    ensures
        match parse_unsigned(arg_str@, usize::MAX as nat) {
            Some(v) => r == Some(v as usize),
            None => r is None,
        },
{
    let c = chars_of(arg_str);
    match parse_unsigned_chars(&c, usize::MAX as u64) {
        Some(v) => Some(v as usize),
        None => None,
    }
}

/// How the pieces of a comma-separated pair of `u32` read: `None` when a
/// piece fails to read, and when a third piece follows; a missing second
/// piece stays zero.
pub open spec fn array2_u32_of(s: Seq<char>) -> Option<(u32, u32)> {
    let ps = split_on(s, ',');
    let v0 = parse_unsigned(trim(ps[0]), u32::MAX as nat);
    if v0 is None {
        None
    } else if ps.len() == 1 {
        Some((v0->0 as u32, 0u32))
    } else {
        let v1 = parse_unsigned(trim(ps[1]), u32::MAX as nat);
        if v1 is None || ps.len() >= 3 {
            None
        } else {
            Some((v0->0 as u32, v1->0 as u32))
        }
    }
}

/// Reading `s` as a pair would write a third number past the pair: the first
/// three pieces all read.
pub open spec fn array2_u32_overflows(s: Seq<char>) -> bool {
    let ps = split_on(s, ',');
    &&& ps.len() >= 3
    &&& parse_unsigned(trim(ps[0]), u32::MAX as nat) is Some
    &&& parse_unsigned(trim(ps[1]), u32::MAX as nat) is Some
    &&& parse_unsigned(trim(ps[2]), u32::MAX as nat) is Some
}

/// Reads `a,b` as two `u32` (see `array2_u32_of`).
pub fn unpack_array2_u32_chars(s: &Vec<char>) -> (r: Option<[u32; 2]>)
    requires
        !array2_u32_overflows(s@),
    ensures
        match array2_u32_of(s@) {
            Some(p) => r is Some && r->0[0] == p.0 && r->0[1] == p.1,
            None => r is None,
        },
{
    let parts = split_chars(s, ',');
    proof {
        lemma_split_on_nonempty(s@, ',');
    }
    let mut arr: [u32; 2] = [0, 0];
    let mut index: usize = 0;
    while index < parts.len()
        invariant
            index <= parts@.len(),
            parts@.len() == split_on(s@, ',').len(),
            parts@.len() >= 1,
            forall|k: int| 0 <= k < parts@.len() ==> #[trigger] parts@[k]@ == split_on(s@, ',')[k],
            !array2_u32_overflows(s@),
            index <= 2,
            forall|k: int|
                0 <= k < index ==> parse_unsigned(trim(#[trigger] split_on(s@, ',')[k]), u32::MAX as nat)
                    == Some(arr[k] as nat),
            index < 1 ==> arr[0] == 0,
            index < 2 ==> arr[1] == 0,
        decreases parts@.len() - index,
    {
        let t = trim_chars(&parts[index]);
        match unpack_u32_chars(&t) {
            Some(n) => {
                if index == 2 {
                    proof {
                        assert(false);
                    }
                }
                arr[index] = n;
            },
            None => {
                return None;
            },
        }
        index += 1;
    }
    Some(arr)
}

/// Reads `a,b` as two `u32`; `func_name` and `par_name` name the command and
/// parameter for messages.
pub fn unpack_array2_u32(arg_str: &str, func_name: &str, par_name: &str) -> (r: Option<[u32; 2]>)
    requires
        !array2_u32_overflows(arg_str@),
    ensures
        match array2_u32_of(arg_str@) {
            Some(p) => r is Some && r->0[0] == p.0 && r->0[1] == p.1,
            None => r is None,
        },
{
    let c = chars_of(arg_str);
    unpack_array2_u32_chars(&c)
}


// ---------------------------------------------------------------------------
// Sending a command

/// What a sent command asks the editor to do. Text that the application still
/// has to read as floating-point numbers is handed over as it was typed.
pub enum ConsoleCommand {
    /// The console text held no word.
    NoFunction,
    /// The first word is not a command.
    InvalidFunction,
    /// A plane command without `id:` while no plane id has been set.
    NeedPlaneId,
    /// Spawn a new plane; `None` fields keep the new plane's defaults.
    NewPlane { id: Option<u32>, loc: Option<String>, dims: Option<String>, subs: Option<[u32; 2]> },
    /// Edit a plane; `subs` is `None` when not given, `Some(None)` when given
    /// but unreadable.
    EditPlane {
        id: Option<u32>,
        loc: Option<String>,
        dims: Option<String>,
        subs: Option<Option<[u32; 2]>>,
        open_color: bool,
    },
    /// `set id:<n>` chose plane id `n`.
    SetId(u32),
    /// `set id:<text>` with text that is no plane id.
    InvalidId,
    /// `set` without an `id:` argument.
    NoIdGiven,
    ToggleWireFrame,
    NewColor,
    Editor,
    View,
}

/// The meaning of a `ConsoleCommand`, with text as character sequences.
pub enum CommandSpec {
    NoFunction,
    InvalidFunction,
    NeedPlaneId,
    NewPlane {
        id: Option<u32>,
        loc: Option<Seq<char>>,
        dims: Option<Seq<char>>,
        subs: Option<(u32, u32)>,
    },
    EditPlane {
        id: Option<u32>,
        loc: Option<Seq<char>>,
        dims: Option<Seq<char>>,
        subs: Option<Option<(u32, u32)>>,
        open_color: bool,
    },
    SetId(u32),
    InvalidId,
    NoIdGiven,
    ToggleWireFrame,
    NewColor,
    Editor,
    View,
}

pub open spec fn opt_string_view(o: Option<String>) -> Option<Seq<char>> {
    match o {
        Some(s) => Some(s@),
        None => None,
    }
}

pub open spec fn opt_pair_view(o: Option<[u32; 2]>) -> Option<(u32, u32)> {
    match o {
        Some(a) => Some((a[0], a[1])),
        None => None,
    }
}

impl View for ConsoleCommand {
    type V = CommandSpec;

    open spec fn view(&self) -> CommandSpec {
        match self {
            ConsoleCommand::NoFunction => CommandSpec::NoFunction,
            ConsoleCommand::InvalidFunction => CommandSpec::InvalidFunction,
            ConsoleCommand::NeedPlaneId => CommandSpec::NeedPlaneId,
            ConsoleCommand::NewPlane { id, loc, dims, subs } => CommandSpec::NewPlane {
                id: *id,
                loc: opt_string_view(*loc),
                dims: opt_string_view(*dims),
                subs: opt_pair_view(*subs),
            },
            ConsoleCommand::EditPlane { id, loc, dims, subs, open_color } => CommandSpec::EditPlane {
                id: *id,
                loc: opt_string_view(*loc),
                dims: opt_string_view(*dims),
                subs: match subs {
                    Some(o) => Some(opt_pair_view(*o)),
                    None => None,
                },
                open_color: *open_color,
            },
            ConsoleCommand::SetId(v) => CommandSpec::SetId(*v),
            ConsoleCommand::InvalidId => CommandSpec::InvalidId,
            ConsoleCommand::NoIdGiven => CommandSpec::NoIdGiven,
            ConsoleCommand::ToggleWireFrame => CommandSpec::ToggleWireFrame,
            ConsoleCommand::NewColor => CommandSpec::NewColor,
            ConsoleCommand::Editor => CommandSpec::Editor,
            ConsoleCommand::View => CommandSpec::View,
        }
    }
}

/// A plane id as the console reads it.
pub open spec fn plane_id_of(s: Seq<char>) -> Option<u32> {
    match parse_unsigned(s, u32::MAX as nat) {
        Some(v) => Some(v as u32),
        None => None,
    }
}

/// The plane id a plane command uses: the `id:` argument when it reads, the
/// id set earlier when no `id:` is given; `None` keeps the default.
pub open spec fn command_plane_id(ws: Seq<Seq<char>>, set_id: u32) -> Option<u32> {
    match search_arg("id"@, ws) {
        None => Some(set_id),
        Some(s) => plane_id_of(s),
    }
}

/// A plane command that lacks an id: none given and none set.
pub open spec fn lacks_plane_id(ws: Seq<Seq<char>>, set_id: u32, default_id: u32) -> bool {
    set_id == default_id && search_arg("id"@, ws) is None
}

/// What the console does with `text` while `set_id` is the chosen plane id
/// and `default_id` means that none was chosen.
pub open spec fn command_of(text: Seq<char>, set_id: u32, default_id: u32) -> CommandSpec {
    let ws = words(text);
    if ws.len() == 0 {
        CommandSpec::NoFunction
    } else {
        match func_of(ws[0]) {
            None => CommandSpec::InvalidFunction,
            Some(Funcs::NewPlaneData) => if lacks_plane_id(ws, set_id, default_id) {
                CommandSpec::NeedPlaneId
            } else {
                CommandSpec::NewPlane {
                    id: command_plane_id(ws, set_id),
                    loc: search_arg("loc"@, ws),
                    dims: search_arg("dims"@, ws),
                    subs: match search_arg("subs"@, ws) {
                        Some(s) => array2_u32_of(s),
                        None => None,
                    },
                }
            },
            Some(Funcs::PlaneData) => if lacks_plane_id(ws, set_id, default_id) {
                CommandSpec::NeedPlaneId
            } else {
                CommandSpec::EditPlane {
                    id: command_plane_id(ws, set_id),
                    loc: search_arg("loc"@, ws),
                    dims: search_arg("dims"@, ws),
                    subs: match search_arg("subs"@, ws) {
                        Some(s) => Some(array2_u32_of(s)),
                        None => None,
                    },
                    open_color: search_arg("clr"@, ws) is Some,
                }
            },
            Some(Funcs::SetID) => match search_arg("id"@, ws) {
                None => CommandSpec::NoIdGiven,
                Some(s) => match plane_id_of(s) {
                    Some(v) => CommandSpec::SetId(v),
                    None => CommandSpec::InvalidId,
                },
            },
            Some(Funcs::WireFrame) => CommandSpec::ToggleWireFrame,
            Some(Funcs::NewColor) => CommandSpec::NewColor,
            Some(Funcs::Editor) => CommandSpec::Editor,
            Some(Funcs::View) => CommandSpec::View,
        }
    }
}

/// Reading the `subs:` argument of a plane command would index past its pair.
pub open spec fn command_overflows(text: Seq<char>, set_id: u32, default_id: u32) -> bool {
    let ws = words(text);
    &&& ws.len() > 0
    &&& (func_of(ws[0]) == Some(Funcs::NewPlaneData) || func_of(ws[0]) == Some(Funcs::PlaneData))
    &&& !lacks_plane_id(ws, set_id, default_id)
    &&& search_arg("subs"@, ws) matches Some(s) && array2_u32_overflows(s)
}

/// Looks up argument `name` among the words `ws`.
fn arg_of(name: &str, ws: &Vec<Vec<char>>) -> (r: Option<Vec<char>>)
    ensures
        match search_arg(name@, ws@.map_values(|a: Vec<char>| a@)) {
            Some(v) => r is Some && r->0@ == v,
            None => r is None,
        },
{
    let n = chars_of(name);
    search_arg_chars(&n, ws)
}

/// The argument `name` among the words `ws`, as a `String`.
fn arg_string(name: &str, ws: &Vec<Vec<char>>) -> (r: Option<String>)
    ensures
        opt_string_view(r) == search_arg(name@, ws@.map_values(|a: Vec<char>| a@)),
{
    match arg_of(name, ws) {
        Some(v) => Some(string_of(&v)),
        None => None,
    }
}

/// Runs the console text as a command: records it in the history when its
/// first word is a command, applies `set id:` to `plane_set_id`, and returns
/// what the editor has to do.
pub fn send_command(
    console: &ConsoleInput,
    sent_commands: &mut SentCommands,
    plane_set_id: &mut PlaneSetID,
    default_plane_id: u32,
) -> (r: ConsoleCommand)
    requires
        !command_overflows(console.text@, old(plane_set_id).0, default_plane_id),
    ensures
        r@ == command_of(console.text@, old(plane_set_id).0, default_plane_id),
        func_of_text(console.text@) is Some ==> final(sent_commands).data@ == old(sent_commands).data@.push(
            console.text,
        ) && final(sent_commands).index == old(sent_commands).data@.len(),
        func_of_text(console.text@) is None ==> final(sent_commands).data@ == old(
            sent_commands,
        ).data@ && final(sent_commands).index == old(sent_commands).index,
        final(plane_set_id).0 == match r@ {
            CommandSpec::SetId(v) => v,
            _ => old(plane_set_id).0,
        },
{
    let ws = console_words(console);
    let ghost wv = words(console.text@);
    proof {
        assert(ws@.len() == wv.len());
        if ws@.len() > 0 {
            assert(ws@[0]@ == wv[0]);
        }
    }
    if ws.len() < 1 {
        return ConsoleCommand::NoFunction;
    }
    let func = match Funcs::from_chars(&ws[0]) {
        Ok(f) => f,
        Err(_) => {
            return ConsoleCommand::InvalidFunction;
        },
    };
    sent_commands.data.push(console.text.clone());
    sent_commands.set_last_as_index();
    match func {
        Funcs::NewPlaneData | Funcs::PlaneData => {
            let opt_id = arg_of("id", &ws);
            let id: Option<u32> = match opt_id {
                None => {
                    if plane_set_id.0 == default_plane_id {
                        return ConsoleCommand::NeedPlaneId;
                    }
                    Some(plane_set_id.0)
                },
                Some(s) => unpack_u32_chars(&s),
            };
            let loc = arg_string("loc", &ws);
            let dims = arg_string("dims", &ws);
            let subs: Option<Option<[u32; 2]>> = match arg_of("subs", &ws) {
                Some(s) => Some(unpack_array2_u32_chars(&s)),
                None => None,
            };
            match func {
                Funcs::NewPlaneData => {
                    let s2 = match subs {
                        Some(o) => o,
                        None => None,
                    };
                    ConsoleCommand::NewPlane { id, loc, dims, subs: s2 }
                },
                _ => {
                    let open_color = arg_of("clr", &ws).is_some();
                    ConsoleCommand::EditPlane { id, loc, dims, subs, open_color }
                },
            }
        },
        Funcs::SetID => match arg_of("id", &ws) {
            Some(s) => match unpack_u32_chars(&s) {
                Some(v) => {
                    plane_set_id.0 = v;
                    ConsoleCommand::SetId(v)
                },
                None => ConsoleCommand::InvalidId,
            },
            None => ConsoleCommand::NoIdGiven,
        },
        Funcs::WireFrame => ConsoleCommand::ToggleWireFrame,
        Funcs::NewColor => ConsoleCommand::NewColor,
        Funcs::Editor => ConsoleCommand::Editor,
        Funcs::View => ConsoleCommand::View,
    }
}

/// Whether reading `s` as a pair would index past the pair (see
/// `array2_u32_overflows`).
fn array2_u32_would_overflow(s: &Vec<char>) -> (r: bool)
    ensures
        r == array2_u32_overflows(s@),
{
    let parts = split_chars(s, ',');
    if parts.len() < 3 {
        return false;
    }
    let a = trim_chars(&parts[0]);
    let b = trim_chars(&parts[1]);
    let c = trim_chars(&parts[2]);
    unpack_u32_chars(&a).is_some() && unpack_u32_chars(&b).is_some() && unpack_u32_chars(&c).is_some()
}

/// Reads `a,b` as two `u32` as `unpack_array2_u32` does, unless a third
/// piece follows two that read (where `unpack_array2_u32` cannot go on):
/// then `None`.
pub fn try_unpack_array2_u32(arg_str: &str, func_name: &str, par_name: &str) -> (r: Option<Option<[u32; 2]>>)
    ensures
        r is None <==> array2_u32_overflows(arg_str@),
        r matches Some(o) ==> match array2_u32_of(arg_str@) {
            Some(p) => o is Some && o->0[0] == p.0 && o->0[1] == p.1,
            None => o is None,
        },
{
    let c = chars_of(arg_str);
    if array2_u32_would_overflow(&c) {
        None
    } else {
        Some(unpack_array2_u32_chars(&c))
    }
}

/// Runs the console text as `send_command` does, unless reading its `subs:`
/// argument would write a third number into a pair (where `send_command`
/// cannot go on): then nothing changes and `None` is returned.
pub fn try_send_command(
    console: &ConsoleInput,
    sent_commands: &mut SentCommands,
    plane_set_id: &mut PlaneSetID,
    default_plane_id: u32,
) -> (r: Option<ConsoleCommand>)
    ensures
        r is None <==> command_overflows(console.text@, old(plane_set_id).0, default_plane_id),
        r is None ==> final(sent_commands).data@ == old(sent_commands).data@ && final(sent_commands).index
            == old(sent_commands).index && final(plane_set_id).0 == old(plane_set_id).0,
        r matches Some(c) ==> {
            &&& c@ == command_of(console.text@, old(plane_set_id).0, default_plane_id)
            &&& func_of_text(console.text@) is Some ==> final(sent_commands).data@ == old(
                sent_commands,
            ).data@.push(console.text) && final(sent_commands).index == old(sent_commands).data@.len()
            &&& func_of_text(console.text@) is None ==> final(sent_commands).data@ == old(
                sent_commands,
            ).data@ && final(sent_commands).index == old(sent_commands).index
            &&& final(plane_set_id).0 == match c@ {
                CommandSpec::SetId(v) => v,
                _ => old(plane_set_id).0,
            }
        },
{
    let ws = console_words(console);
    let ghost wv = words(console.text@);
    proof {
        assert(ws@.len() == wv.len());
        if ws@.len() > 0 {
            assert(ws@[0]@ == wv[0]);
        }
        assert(ws@.map_values(|a: Vec<char>| a@) == wv);
    }
    if ws.len() > 0 {
        let plane_command = match Funcs::from_chars(&ws[0]) {
            Ok(Funcs::NewPlaneData) | Ok(Funcs::PlaneData) => true,
            _ => false,
        };
        if plane_command {
            let lacks_id = plane_set_id.0 == default_plane_id && arg_of("id", &ws).is_none();
            if !lacks_id {
                if let Some(sv) = arg_of("subs", &ws) {
                    if array2_u32_would_overflow(&sv) {
                        return None;
                    }
                }
            }
        }
    }
    Some(send_command(console, sent_commands, plane_set_id, default_plane_id))
}

/// The console state after its toggle key, and whether the typed command is
/// sent: closing sends it, opening does not.
pub open spec fn toggled(state: ConsoleState) -> (ConsoleState, bool) {
    match state {
        ConsoleState::On => (ConsoleState::Off, true),
        ConsoleState::Off => (ConsoleState::On, false),
    }
}

/// Opening or closing the console: closing sends the typed command
/// (`true`), opening does not.
pub fn console_toggle(state: ConsoleState) -> (r: (ConsoleState, bool))
    ensures
        r == toggled(state),
{
    match state {
        ConsoleState::On => (ConsoleState::Off, true),
        ConsoleState::Off => (ConsoleState::On, false),
    }
}


// ---------------------------------------------------------------------------
// Keeping the history

/// The distinct commands of `s`, each at its first occurrence.
pub open spec fn dedup(s: Seq<Seq<char>>) -> Seq<Seq<char>>
    decreases s.len(),
{
    if s.len() == 0 {
        Seq::empty()
    } else {
        let d = dedup(s.drop_last());
        if d.contains(s.last()) {
            d
        } else {
            d.push(s.last())
        }
    }
}

/// The history kept from distinct commands `u`: when there are more than 50,
/// the first `u.len() - 50` and one more are dropped.
pub open spec fn trim_history(u: Seq<Seq<char>>) -> Seq<Seq<char>> {
    if u.len() > 50 {
        u.skip(u.len() - 50 + 1)
    } else {
        u
    }
}

impl SentCommands {
    /// The commands to store when the console closes for good: each distinct
    /// command once, cut down to 49 when more than 50 are distinct.
    pub fn commands_to_keep(&self) -> (r: Vec<String>)
        ensures
            r@.map_values(|c: String| c@) == trim_history(dedup(self.data@.map_values(|c: String| c@))),
    {
        let ghost all = self.data@.map_values(|c: String| c@);
        let mut uniq: Vec<String> = Vec::new();
        let mut i: usize = 0;
        proof {
            assert(all.take(0) =~= Seq::<Seq<char>>::empty());
            assert(uniq@.map_values(|c: String| c@) =~= Seq::<Seq<char>>::empty());
        }
        while i < self.data.len()
            invariant
                i <= self.data@.len(),
                all == self.data@.map_values(|c: String| c@),
                uniq@.map_values(|c: String| c@) == dedup(all.take(i as int)),
            decreases self.data@.len() - i,
        {
            let ghost u = uniq@.map_values(|c: String| c@);
            let mut seen = false;
            let mut j: usize = 0;
            while j < uniq.len()
                invariant
                    i < self.data@.len(),
                    j <= uniq@.len(),
                    u == uniq@.map_values(|c: String| c@),
                    seen <==> exists|k: int| 0 <= k < j && u[k] == self.data@[i as int]@,
                decreases uniq@.len() - j,
            {
                proof {
                    assert(u[j as int] == uniq@[j as int]@);
                }
                if uniq[j] == self.data[i] {
                    seen = true;
                }
                j += 1;
            }
            proof {
                assert(all.take(i + 1).drop_last() =~= all.take(i as int));
                assert(all.take(i + 1).last() == self.data@[i as int]@);
                if seen {
                    let k = choose|k: int| 0 <= k < j && u[k] == self.data@[i as int]@;
                    assert(u.contains(self.data@[i as int]@));
                } else {
                    assert(!u.contains(self.data@[i as int]@));
                }
            }
            if !seen {
                uniq.push(self.data[i].clone());
                proof {
                    assert(uniq@.map_values(|c: String| c@) =~= u.push(self.data@[i as int]@));
                }
            }
            i += 1;
        }
        proof {
            assert(all.take(self.data@.len() as int) =~= all);
        }
        let n = uniq.len();
        if n > 50 {
            let n_rm = n - 50;
            let mut kept: Vec<String> = Vec::new();
            let mut k: usize = n_rm + 1;
            let ghost u = uniq@.map_values(|c: String| c@);
            while k < n
                invariant
                    n_rm + 1 <= k <= n,
                    n == uniq@.len(),
                    u == uniq@.map_values(|c: String| c@),
                    kept@.map_values(|c: String| c@) == u.subrange(n_rm + 1, k as int),
                decreases n - k,
            {
                let ghost prev = kept@.map_values(|c: String| c@);
                proof {
                    assert(u[k as int] == uniq@[k as int]@);
                }
                kept.push(uniq[k].clone());
                proof {
                    assert(kept@.map_values(|c: String| c@) =~= prev.push(u[k as int]));
                    assert(u.subrange(n_rm + 1, k + 1) =~= u.subrange(n_rm + 1, k as int).push(u[k as int]));
                }
                k += 1;
            }
            proof {
                assert(u.subrange(n_rm + 1, n as int) =~= u.skip(n_rm + 1));
            }
            kept
        } else {
            uniq
        }
    }
}

/// No command occurs twice among the distinct commands, and they are exactly
/// the commands that were sent.
pub proof fn lemma_dedup_distinct(s: Seq<Seq<char>>)
    ensures
        forall|i: int, j: int| 0 <= i < j < dedup(s).len() ==> dedup(s)[i] != dedup(s)[j],
        forall|x: Seq<char>| dedup(s).contains(x) <==> s.contains(x),
    decreases s.len(),
{
    if s.len() > 0 {
        let u = s.drop_last();
        let y = s.last();
        lemma_dedup_distinct(u);
        let d = dedup(u);
        assert forall|x: Seq<char>| dedup(s).contains(x) <==> s.contains(x) by {
            assert(s.contains(x) <==> (u.contains(x) || x == y)) by {
                if s.contains(x) {
                    let k = choose|k: int| 0 <= k < s.len() && s[k] == x;
                    if k < u.len() {
                        assert(u[k] == x);
                    }
                }
                if u.contains(x) {
                    let k = choose|k: int| 0 <= k < u.len() && u[k] == x;
                    assert(s[k] == x);
                }
                if x == y {
                    assert(s[s.len() - 1] == x);
                }
            }
            assert(d.contains(x) <==> u.contains(x));
            if !d.contains(y) {
                let e = d.push(y);
                assert(e.contains(x) <==> (d.contains(x) || x == y)) by {
                    if e.contains(x) {
                        let k = choose|k: int| 0 <= k < e.len() && e[k] == x;
                        if k < d.len() {
                            assert(d[k] == x);
                        }
                    }
                    if d.contains(x) {
                        let k = choose|k: int| 0 <= k < d.len() && d[k] == x;
                        assert(e[k] == x);
                    }
                    if x == y {
                        assert(e[d.len() as int] == x);
                    }
                }
            }
        }
        assert forall|i: int, j: int| 0 <= i < j < dedup(s).len() implies dedup(s)[i] != dedup(s)[j] by {
            if !d.contains(y) && j == d.len() {
                assert(dedup(s)[i] == d[i]);
                assert(dedup(s)[j] == y);
                if d[i] == y {
                    assert(d.contains(y));
                }
            } else if !d.contains(y) {
                assert(dedup(s)[i] == d[i]);
                assert(dedup(s)[j] == d[j]);
            }
        }
    }
}


// ---------------------------------------------------------------------------
// The history file

/// The list of strings that `serde_json` reads from `text` as a JSON array of
/// strings, `None` when the text is no such array.
pub uninterp spec fn json_string_list(text: Seq<char>) -> Option<Seq<Seq<char>>>;

/// The JSON text that `serde_json` writes for a list of strings.
pub uninterp spec fn json_of_string_list(cmds: Seq<Seq<char>>) -> Seq<char>;

/// Calls `serde_json::from_str::<Vec<String>>`. Claimed: a result is the list
/// that `json_string_list` names for the text, and an error is `None` exactly
/// where that name is `None`; the parse depends on the text alone.
#[verifier::external_body]
fn parse_string_list(text: &str) -> (r: Option<Vec<String>>)
    ensures
        r matches Some(v) ==> json_string_list(text@) == Some(v@.map_values(|s: String| s@)),
        r is None ==> json_string_list(text@) is None,
{
    serde_json::from_str::<Vec<String>>(text).ok()
}

/// Calls `serde_json::to_string` on a list of strings. Claimed: the text is
/// the one `json_of_string_list` names for the list. The crate fails only
/// when a value's own serializer fails or a map has keys that are not
/// strings; neither happens for a list of strings, so the call returns text.
#[verifier::external_body]
fn string_list_json(cmds: &Vec<String>) -> (r: String)
    ensures
        r@ == json_of_string_list(cmds@.map_values(|s: String| s@)),
{
    serde_json::to_string(cmds).unwrap()
}

/// The history stored in the text of the history file: its commands, with
/// the cursor on the first; `None` when the text is no JSON list of strings.
pub fn load_history(text: &str) -> (r: Option<SentCommands>)
    ensures
        match json_string_list(text@) {
            Some(cmds) => r is Some && r->0.data@.map_values(|s: String| s@) == cmds && r->0.index == 0,
            None => r is None,
        },
{
    match parse_string_list(text) {
        Some(data) => Some(SentCommands { data, index: 0 }),
        None => None,
    }
}

impl SentCommands {
    /// The text to write to the history file when the console closes for
    /// good: the kept commands (see `commands_to_keep`) as JSON.
    pub fn history_json(&self) -> (r: String)
        ensures
            r@ == json_of_string_list(trim_history(dedup(self.data@.map_values(|c: String| c@)))),
    {
        let kept = self.commands_to_keep();
        string_list_json(&kept)
    }
}


// ---------------------------------------------------------------------------
// Typing into the console

/// The keys of one frame that the console reacts to.
pub struct ConsoleKeys {
    /// Characters typed this frame, in order.
    pub typed: Vec<char>,
    /// Backspace was just pressed.
    pub back: bool,
    /// Delete was just pressed.
    pub delete: bool,
    /// Arrow up was just pressed.
    pub up: bool,
    /// Arrow down was just pressed.
    pub down: bool,
    /// Tab was just pressed.
    pub tab: bool,
    /// Backspace is held and its repeat delay has run out.
    pub back_repeat: bool,
}

/// The punctuation the console accepts besides letters and digits.
pub open spec fn allowed_symbol(c: char) -> bool {
    c == '_' || c == '.' || c == ',' || c == '-' || c == ':' || c == ';' || c == '|' || c == '/' || c
        == '\\' || c == ' '
}

/// A character the console accepts when typed.
pub open spec fn accepted_char(c: char) -> bool {
    alphanumeric(c) || allowed_symbol(c)
}

/// Whether the console accepts `c`.
pub fn accepts_char(c: char) -> (r: bool)
    ensures
        r == accepted_char(c),
{
    is_alphanumeric(c) || c == '_' || c == '.' || c == ',' || c == '-' || c == ':' || c == ';' || c
        == '|' || c == '/' || c == '\\' || c == ' '
}

/// `text` after typing `typed`: the accepted characters are appended.
pub open spec fn accept_typed(text: Seq<char>, typed: Seq<char>) -> Seq<char>
    decreases typed.len(),
{
    if typed.len() == 0 {
        text
    } else {
        let t = accept_typed(text, typed.drop_last());
        if accepted_char(typed.last()) {
            t.push(typed.last())
        } else {
            t
        }
    }
}

/// `s` without its last character (what `String::pop` leaves).
pub open spec fn pop_last(s: Seq<char>) -> Seq<char> {
    if s.len() > 0 {
        s.drop_last()
    } else {
        s
    }
}

/// The history cursor and text after an arrow key: the cursor moves, and the
/// text becomes the command under it when there is one.
pub open spec fn recall(data: Seq<Seq<char>>, index: int, move_by: int, text: Seq<char>) -> (int, Seq<char>) {
    let i = moved_index(data.len(), index, move_by);
    (i, if i < data.len() { data[i] } else { text })
}

/// The last candidate among those sharing the longest prefix with `t`.
pub open spec fn best_alpha(cands: Seq<Seq<char>>, t: Seq<char>) -> Seq<char>
    decreases cands.len(),
{
    if cands.len() <= 1 {
        if cands.len() == 1 {
            cands[0]
        } else {
            Seq::empty()
        }
    } else {
        let b = best_alpha(cands.drop_last(), t);
        if prefix_score(cands.last(), t) >= prefix_score(b, t) {
            cands.last()
        } else {
            b
        }
    }
}

/// The word that tab completes and its replacement, when there is one.
pub open spec fn completion_of(text: Seq<char>) -> Option<(Seq<char>, Seq<char>)> {
    match (func_of_text(text), last_arg_of(text)) {
        (Some(f), Some(t)) => Some((t, best_alpha(func_args_of(f), t))),
        _ => None,
    }
}

/// The first `k` characters of `text` take `bytes` bytes.
pub open spec fn is_boundary(text: Seq<char>, k: int, bytes: int) -> bool {
    0 <= k <= text.len() && utf8_len(text.take(k)) == bytes
}

/// Tab completion would slice `text` where no character starts: the byte
/// length of the word is subtracted from that of the text, and the text is cut
/// there.
pub open spec fn tab_panics(text: Seq<char>) -> bool {
    match completion_of(text) {
        Some((t, _)) => utf8_len(t) > utf8_len(text) || !(exists|k: int|
            #[trigger] is_boundary(text, k, utf8_len(text) - utf8_len(t))),
        None => false,
    }
}

/// `text` after tab completion: cut where the completed word's byte length
/// from the end falls, then the replacement appended.
pub open spec fn tab_complete(text: Seq<char>) -> Seq<char> {
    match completion_of(text) {
        Some((t, r)) => {
            let k = choose|k: int| #[trigger] is_boundary(text, k, utf8_len(text) - utf8_len(t));
            text.take(k) + r
        },
        None => text,
    }
}

/// `text` after typing `typed`, then Backspace when `back`, then Delete when
/// `delete`.
pub open spec fn edit_text(text: Seq<char>, typed: Seq<char>, back: bool, delete: bool) -> Seq<char> {
    let t1 = accept_typed(text, typed);
    let t2 = if back {
        pop_last(t1)
    } else {
        t1
    };
    if delete {
        Seq::empty()
    } else {
        t2
    }
}

/// The text after the editing keys of a frame (typing, Backspace, Delete).
pub open spec fn after_edit_keys(keys: ConsoleKeys, text: Seq<char>) -> Seq<char> {
    edit_text(text, keys.typed@, keys.back, keys.delete)
}

/// Applies typing, Backspace and Delete to `text` (see `edit_text`).
pub fn edit_chars(text: &Vec<char>, typed: &Vec<char>, back: bool, delete: bool) -> (r: Vec<char>)
    ensures
        r@ == edit_text(text@, typed@, back, delete),
{
    let mut cur: Vec<char> = Vec::new();
    let mut k: usize = 0;
    while k < text.len()
        invariant
            k <= text@.len(),
            cur@ == text@.take(k as int),
        decreases text@.len() - k,
    {
        cur.push(text[k]);
        proof {
            assert(text@.take(k + 1) =~= text@.take(k as int).push(text@[k as int]));
        }
        k += 1;
    }
    proof {
        assert(text@.take(text@.len() as int) =~= text@);
        assert(typed@.take(0) =~= Seq::<char>::empty());
    }
    let mut i: usize = 0;
    while i < typed.len()
        invariant
            i <= typed@.len(),
            cur@ == accept_typed(text@, typed@.take(i as int)),
        decreases typed@.len() - i,
    {
        let c = typed[i];
        proof {
            assert(typed@.take(i + 1).drop_last() =~= typed@.take(i as int));
            assert(typed@.take(i + 1).last() == c);
        }
        if accepts_char(c) {
            cur.push(c);
        }
        i += 1;
    }
    proof {
        assert(typed@.take(typed@.len() as int) =~= typed@);
    }
    if back {
        if cur.len() > 0 {
            cur.pop();
        }
    }
    if delete {
        cur = Vec::new();
    }
    proof {
        assert(cur@ =~= edit_text(text@, typed@, back, delete));
    }
    cur
}

/// The history cursor and text after the arrow keys of a frame.
pub open spec fn after_history_keys(keys: ConsoleKeys, data: Seq<Seq<char>>, index: int, text: Seq<char>) -> (
    int,
    Seq<char>,
) {
    let (i4, t4) = if keys.up {
        recall(data, index, -1, text)
    } else {
        (index, text)
    };
    if keys.down {
        recall(data, i4, 1, t4)
    } else {
        (i4, t4)
    }
}

/// The text just before tab completion in a frame.
pub open spec fn before_tab(keys: ConsoleKeys, data: Seq<Seq<char>>, index: int, text: Seq<char>) -> Seq<char> {
    after_history_keys(keys, data, index, after_edit_keys(keys, text)).1
}

/// The history cursor and console text after one frame of keys.
pub open spec fn console_update(keys: ConsoleKeys, data: Seq<Seq<char>>, index: int, text: Seq<char>) -> (
    int,
    Seq<char>,
) {
    let (i5, t5) = after_history_keys(keys, data, index, after_edit_keys(keys, text));
    let t6 = if keys.tab {
        tab_complete(t5)
    } else {
        t5
    };
    (i5, if keys.back_repeat {
        pop_last(t6)
    } else {
        t6
    })
}

pub proof fn lemma_utf8_take_mono(s: Seq<char>, i: int, j: int)
    requires
        0 <= i < j <= s.len(),
    ensures
        utf8_len(s.take(i)) < utf8_len(s.take(j)),
    decreases j,
{
    assert(s.take(j).drop_last() =~= s.take(j - 1));
    if i < j - 1 {
        lemma_utf8_take_mono(s, i, j - 1);
    }
}

proof fn lemma_best_alpha_member(cands: Seq<Seq<char>>, t: Seq<char>)
    requires
        cands.len() > 0,
    ensures
        exists|j: int| 0 <= j < cands.len() && cands[j] == best_alpha(cands, t),
    decreases cands.len(),
{
    if cands.len() == 1 {
        assert(cands[0] == best_alpha(cands, t));
    } else {
        lemma_best_alpha_member(cands.drop_last(), t);
        let j = choose|j: int|
            0 <= j < cands.drop_last().len() && cands.drop_last()[j] == best_alpha(cands.drop_last(), t);
        if prefix_score(cands.last(), t) >= prefix_score(best_alpha(cands.drop_last(), t), t) {
            assert(cands[cands.len() - 1] == best_alpha(cands, t));
        } else {
            assert(cands[j] == best_alpha(cands, t));
        }
    }
}

/// The candidate with the highest score that no later candidate ties is
/// `best_alpha`.
proof fn lemma_best_alpha_unique(cands: Seq<Seq<char>>, t: Seq<char>, k: int)
    requires
        0 <= k < cands.len(),
        forall|j: int| 0 <= j < cands.len() ==> prefix_score(#[trigger] cands[j], t) <= prefix_score(cands[k], t),
        forall|j: int| k < j < cands.len() ==> prefix_score(#[trigger] cands[j], t) < prefix_score(cands[k], t),
    ensures
        cands[k] == best_alpha(cands, t),
    decreases cands.len(),
{
    if cands.len() > 1 {
        let u = cands.drop_last();
        if k == cands.len() - 1 {
            lemma_best_alpha_member(u, t);
            let j = choose|j: int| 0 <= j < u.len() && u[j] == best_alpha(u, t);
            assert(cands[j] == u[j]);
        } else {
            assert forall|j: int| 0 <= j < u.len() implies prefix_score(#[trigger] u[j], t) <= prefix_score(u[k], t) by {
                assert(u[j] == cands[j]);
            }
            assert forall|j: int| k < j < u.len() implies prefix_score(#[trigger] u[j], t) < prefix_score(u[k], t) by {
                assert(u[j] == cands[j]);
            }
            lemma_best_alpha_unique(u, t, k);
            assert(prefix_score(cands[cands.len() - 1], t) < prefix_score(cands[k], t));
        }
    }
}

/// The byte length of the characters of `s`.
fn utf8_len_of(s: &Vec<char>) -> (r: usize)
    requires
        utf8_len(s@) <= usize::MAX,
    ensures
        r == utf8_len(s@),
{
    let mut acc: usize = 0;
    let mut i: usize = 0;
    while i < s.len()
        invariant
            i <= s@.len(),
            utf8_len(s@) <= usize::MAX,
            acc == utf8_len(s@.take(i as int)),
        decreases s@.len() - i,
    {
        proof {
            assert(s@.take(i + 1).drop_last() =~= s@.take(i as int));
            assert(s@.take(i + 1).last() == s@[i as int]);
            assert(s@.take(s@.len() as int) =~= s@);
            if i + 1 < s@.len() {
                lemma_utf8_take_mono(s@, i + 1, s@.len() as int);
            }
        }
        acc = acc + char_len_utf8(s[i]);
        i += 1;
    }
    proof {
        assert(s@.take(i as int) =~= s@);
    }
    acc
}

/// Tab completion of `cur` (see `tab_complete`).
#[verifier::spinoff_prover]
#[verifier::rlimit(40)]
fn complete_tab(cur: &Vec<char>) -> (r: Vec<char>)
    requires
        !tab_panics(cur@),
        utf8_len(cur@) <= usize::MAX,
    ensures
        r@ == tab_complete(cur@),
{
    let console = ConsoleInput { text: string_of(cur) };
    let args = get_func_args(&console);
    let last = get_last(&console);
    match (args, last) {
        (Some(mut args), Some(target)) => {
            let ghost f = func_of_text(cur@)->0;
            let ghost cands = args@.map_values(|a: &str| a@);
            proof {
                assert(cands == func_args_of(f));
                assert(cands.len() > 0);
            }
            let ghost pre = args@;
            let repl = get_most_similar_alphabetically(target.as_str(), &mut args);
            proof {
                assert forall|j: int| 0 <= j < cands.len() implies #[trigger] cands[j] == pre[j]@ by {}
                let k = choose|k: int|
                    0 <= k < cands.len() && repl@ == cands[k] && (forall|j: int|
                        0 <= j < cands.len() ==> prefix_score(#[trigger] cands[j], target@)
                            <= prefix_score(cands[k], target@)) && (forall|j: int|
                        k < j < cands.len() ==> prefix_score(#[trigger] cands[j], target@)
                            < prefix_score(cands[k], target@));
                assert forall|j: int| 0 <= j < cands.len() implies prefix_score(#[trigger] cands[j], target@)
                    <= prefix_score(cands[k], target@) by {
                    assert(cands[j] == pre[j]@);
                }
                lemma_best_alpha_unique(cands, target@, k);
                assert(completion_of(cur@) == Some((target@, repl@)));
            }
            let tc = chars_of(target.as_str());
            let total = utf8_len_of(cur);
            let tlen = utf8_len_of(&tc);
            let index = total - tlen;
            let ghost kstar = choose|k: int| #[trigger] is_boundary(cur@, k, index as int);
            let mut acc: usize = 0;
            let mut k: usize = 0;
            proof {
                assert(cur@.take(0) =~= Seq::<char>::empty());
                assert(cur@.take(cur@.len() as int) =~= cur@);
            }
            while k < cur.len() && acc < index
                invariant
                    k <= kstar,
                    is_boundary(cur@, kstar, index as int),
                    acc == utf8_len(cur@.take(k as int)),
                    index <= total,
                    total == utf8_len(cur@),
                    utf8_len(cur@) <= usize::MAX,
                decreases cur@.len() - k,
            {
                proof {
                    if k as int == kstar {
                        assert(false);
                    }
                    assert(cur@.take(k + 1).drop_last() =~= cur@.take(k as int));
                    assert(cur@.take(k + 1).last() == cur@[k as int]);
                    if k + 1 < kstar {
                        lemma_utf8_take_mono(cur@, k + 1, kstar);
                    }
                }
                acc = acc + char_len_utf8(cur[k]);
                k += 1;
            }
            proof {
                if (k as int) < kstar {
                    lemma_utf8_take_mono(cur@, k as int, kstar);
                    assert(false);
                }
            }
            let mut out: Vec<char> = Vec::new();
            let mut i: usize = 0;
            while i < k
                invariant
                    i <= k,
                    k as int == kstar,
                    kstar <= cur@.len(),
                    out@ == cur@.take(i as int),
                decreases k - i,
            {
                out.push(cur[i]);
                proof {
                    assert(cur@.take(i + 1) =~= cur@.take(i as int).push(cur@[i as int]));
                }
                i += 1;
            }
            let rc = chars_of(repl.as_str());
            let mut j: usize = 0;
            while j < rc.len()
                invariant
                    j <= rc@.len(),
                    out@ == cur@.take(k as int) + rc@.take(j as int),
                decreases rc@.len() - j,
            {
                out.push(rc[j]);
                proof {
                    assert(rc@.take(j + 1) =~= rc@.take(j as int).push(rc@[j as int]));
                    assert(cur@.take(k as int) + rc@.take(j + 1) =~= (cur@.take(k as int) + rc@.take(
                        j as int,
                    )).push(rc@[j as int]));
                }
                j += 1;
            }
            proof {
                assert(rc@.take(rc@.len() as int) =~= rc@);
                let kc = choose|k: int| #[trigger] is_boundary(cur@, k, utf8_len(cur@) - utf8_len(target@));
                if kc != kstar {
                    if kc < kstar {
                        lemma_utf8_take_mono(cur@, kc, kstar);
                    } else {
                        lemma_utf8_take_mono(cur@, kstar, kc);
                    }
                }
            }
            out
        },
        _ => {
            let mut out: Vec<char> = Vec::new();
            let mut i: usize = 0;
            while i < cur.len()
                invariant
                    i <= cur@.len(),
                    out@ == cur@.take(i as int),
                decreases cur@.len() - i,
            {
                out.push(cur[i]);
                proof {
                    assert(cur@.take(i + 1) =~= cur@.take(i as int).push(cur@[i as int]));
                }
                i += 1;
            }
            proof {
                assert(cur@.take(cur@.len() as int) =~= cur@);
            }
            out
        },
    }
}

/// One frame of console typing: accepted characters are appended, Backspace
/// removes the last character, Delete clears the text, the arrow keys walk the
/// history and load the command under the cursor, Tab completes the last word
/// from the command's argument names, and a held Backspace repeats.
pub fn update(keys: &ConsoleKeys, sent_commands: &mut SentCommands, console: &mut ConsoleInput)
    requires
        old(sent_commands).data@.len() <= i32::MAX,
        old(sent_commands).index < i32::MAX,
        keys.tab ==> !tab_panics(
            before_tab(
                *keys,
                old(sent_commands).data@.map_values(|c: String| c@),
                old(sent_commands).index as int,
                old(console).text@,
            ),
        ),
        keys.tab ==> utf8_len(
            before_tab(
                *keys,
                old(sent_commands).data@.map_values(|c: String| c@),
                old(sent_commands).index as int,
                old(console).text@,
            ),
        ) <= usize::MAX,
    ensures
        final(sent_commands).data@ == old(sent_commands).data@,
        (final(sent_commands).index as int, final(console).text@) == console_update(
            *keys,
            old(sent_commands).data@.map_values(|c: String| c@),
            old(sent_commands).index as int,
            old(console).text@,
        ),
{
    let ghost data = sent_commands.data@.map_values(|c: String| c@);
    let text = chars_of(console.text.as_str());
    let mut cur = edit_chars(&text, &keys.typed, keys.back, keys.delete);
    if keys.up {
        sent_commands.move_index(-1);
        if sent_commands.index < sent_commands.data.len() {
            cur = chars_of(sent_commands.data[sent_commands.index].as_str());
            proof {
                assert(data[sent_commands.index as int] == sent_commands.data@[sent_commands.index as int]@);
            }
        }
    }
    if keys.down {
        sent_commands.move_index(1);
        if sent_commands.index < sent_commands.data.len() {
            cur = chars_of(sent_commands.data[sent_commands.index].as_str());
            proof {
                assert(data[sent_commands.index as int] == sent_commands.data@[sent_commands.index as int]@);
            }
        }
    }
    proof {
        assert((sent_commands.index as int, cur@) == after_history_keys(
            *keys,
            data,
            old(sent_commands).index as int,
            after_edit_keys(*keys, old(console).text@),
        ));
    }
    if keys.tab {
        cur = complete_tab(&cur);
    }
    if keys.back_repeat {
        if cur.len() > 0 {
            cur.pop();
        }
    }
    console.text = string_of(&cur);
}


/// The byte length of `s`, when it fits in `usize`.
fn utf8_len_checked(s: &Vec<char>) -> (r: Option<usize>)
    ensures
        match r {
            Some(n) => n == utf8_len(s@),
            None => utf8_len(s@) > usize::MAX,
        },
{
    let mut acc: usize = 0;
    let mut i: usize = 0;
    while i < s.len()
        invariant
            i <= s@.len(),
            acc == utf8_len(s@.take(i as int)),
        decreases s@.len() - i,
    {
        proof {
            assert(s@.take(i + 1).drop_last() =~= s@.take(i as int));
            assert(s@.take(i + 1).last() == s@[i as int]);
        }
        let c = char_len_utf8(s[i]);
        if acc > usize::MAX - c {
            proof {
                assert(s@.take(s@.len() as int) =~= s@);
                if i + 1 < s@.len() {
                    lemma_utf8_take_mono(s@, i + 1, s@.len() as int);
                }
            }
            return None;
        }
        acc = acc + c;
        i += 1;
    }
    proof {
        assert(s@.take(i as int) =~= s@);
    }
    Some(acc)
}

/// Whether tab completion of `cur` would cut it where no character starts
/// (see `tab_panics`).
fn tab_would_panic(cur: &Vec<char>) -> (r: bool)
    requires
        utf8_len(cur@) <= usize::MAX,
    ensures
        r == tab_panics(cur@),
{
    let console = ConsoleInput { text: string_of(cur) };
    let args = get_func_args(&console);
    let last = get_last(&console);
    match (args, last) {
        (Some(_), Some(target)) => {
            let ghost t = target@;
            proof {
                assert(completion_of(cur@) is Some);
                assert(completion_of(cur@) matches Some((w, _)) && w == t);
            }
            let tc = chars_of(target.as_str());
            let total = utf8_len_of(cur);
            match utf8_len_checked(&tc) {
                None => true,
                Some(tlen) => {
                    if tlen > total {
                        return true;
                    }
                    let index = total - tlen;
                    let mut acc: usize = 0;
                    let mut k: usize = 0;
                    proof {
                        assert(cur@.take(0) =~= Seq::<char>::empty());
                        assert(cur@.take(cur@.len() as int) =~= cur@);
                    }
                    while k < cur.len() && acc < index
                        invariant
                            k <= cur@.len(),
                            acc == utf8_len(cur@.take(k as int)),
                            k > 0 ==> utf8_len(cur@.take(k - 1)) < index,
                            index <= total,
                            total == utf8_len(cur@),
                            utf8_len(cur@) <= usize::MAX,
                        decreases cur@.len() - k,
                    {
                        proof {
                            assert(cur@.take(k + 1).drop_last() =~= cur@.take(k as int));
                            assert(cur@.take(k + 1).last() == cur@[k as int]);
                            assert(cur@.take(cur@.len() as int) =~= cur@);
                            if k + 1 < cur@.len() {
                                lemma_utf8_take_mono(cur@, k + 1, cur@.len() as int);
                            }
                        }
                        acc = acc + char_len_utf8(cur[k]);
                        k += 1;
                    }
                    proof {
                        if acc == index {
                            assert(is_boundary(cur@, k as int, utf8_len(cur@) - utf8_len(t)));
                        } else {
                            assert forall|j: int| !#[trigger] is_boundary(cur@, j, utf8_len(cur@) - utf8_len(t)) by {
                                if 0 <= j <= cur@.len() && utf8_len(cur@.take(j)) == index {
                                    if j < k {
                                        if j < k - 1 {
                                            lemma_utf8_take_mono(cur@, j, k - 1);
                                        }
                                    } else if j > k {
                                        lemma_utf8_take_mono(cur@, k as int, j);
                                    }
                                }
                            }
                        }
                    }
                    acc != index
                },
            }
        },
        _ => false,
    }
}

/// The console text just before tab completion in a frame (see `before_tab`).
fn before_tab_text(keys: &ConsoleKeys, data: &Vec<String>, index: usize, text: &String) -> (r: Vec<char>)
    requires
        data@.len() <= i32::MAX,
        index < i32::MAX,
    ensures
        r@ == before_tab(*keys, data@.map_values(|c: String| c@), index as int, text@),
{
    let ghost dv = data@.map_values(|c: String| c@);
    let t0 = chars_of(text.as_str());
    let mut cur = edit_chars(&t0, &keys.typed, keys.back, keys.delete);
    let mut i = index;
    if keys.up {
        i = moved_index_of(data.len(), i, -1);
        if i < data.len() {
            cur = chars_of(data[i].as_str());
            proof {
                assert(dv[i as int] == data@[i as int]@);
            }
        }
    }
    if keys.down {
        i = moved_index_of(data.len(), i, 1);
        if i < data.len() {
            cur = chars_of(data[i].as_str());
            proof {
                assert(dv[i as int] == data@[i as int]@);
            }
        }
    }
    cur
}

/// One frame of console typing as `update` does it, unless Tab would cut the
/// text where no character starts (where `update` cannot go on) or the text's
/// byte length does not fit in `usize`: then nothing changes and `false` is
/// returned.
pub fn try_update(keys: &ConsoleKeys, sent_commands: &mut SentCommands, console: &mut ConsoleInput) -> (applied: bool)
    requires
        old(sent_commands).data@.len() <= i32::MAX,
        old(sent_commands).index < i32::MAX,
    ensures
        ({
            let b = before_tab(
                *keys,
                old(sent_commands).data@.map_values(|c: String| c@),
                old(sent_commands).index as int,
                old(console).text@,
            );
            applied == !(keys.tab && (utf8_len(b) > usize::MAX || tab_panics(b)))
        }),
        final(sent_commands).data@ == old(sent_commands).data@,
        applied ==> (final(sent_commands).index as int, final(console).text@) == console_update(
            *keys,
            old(sent_commands).data@.map_values(|c: String| c@),
            old(sent_commands).index as int,
            old(console).text@,
        ),
        !applied ==> final(sent_commands).index == old(sent_commands).index && final(console).text@ == old(
            console,
        ).text@,
{
    if keys.tab {
        let b = before_tab_text(keys, &sent_commands.data, sent_commands.index, &console.text);
        match utf8_len_checked(&b) {
            None => {
                return false;
            },
            Some(_) => {
                if tab_would_panic(&b) {
                    return false;
                }
            },
        }
    }
    update(keys, sent_commands, console);
    true
}

/// Pressing the console key twice returns to the state one started in, and of
/// the two presses exactly one sends the typed command.
pub proof fn lemma_console_toggle_twice(state: ConsoleState)
    ensures
        toggled(toggled(state).0).0 == state,
        toggled(state).1 != toggled(toggled(state).0).1,
{
}

/// The history cursor always rests on a stored command, or on zero when
/// nothing is stored, wherever it started and however far it moved.
pub proof fn lemma_history_cursor_in_range(len: nat, index: int, move_by: int)
    ensures
        len > 0 ==> 0 <= moved_index(len, index, move_by) < len,
        len == 0 ==> moved_index(len, index, move_by) == 0,
{
}

/// An id chosen with `set id:<v>` is the id of a later plane command that
/// gives none, as long as `v` differs from the value that means "none chosen".
pub proof fn lemma_set_id_then_plane_command(set_text: Seq<char>, plane_text: Seq<char>, set_id: u32, default_id: u32, v: u32)
    requires
        command_of(set_text, set_id, default_id) == CommandSpec::SetId(v),
        v != default_id,
        words(plane_text).len() > 0,
        func_of(words(plane_text)[0]) == Some(Funcs::NewPlaneData) || func_of(words(plane_text)[0]) == Some(
            Funcs::PlaneData,
        ),
        search_arg("id"@, words(plane_text)) is None,
    ensures
        command_of(plane_text, v, default_id) matches CommandSpec::NewPlane { id, .. } ==> id == Some(v),
        command_of(plane_text, v, default_id) matches CommandSpec::EditPlane { id, .. } ==> id == Some(v),
        command_of(plane_text, v, default_id) is NewPlane || command_of(plane_text, v, default_id) is EditPlane,
{
}

/// What tab completes a word to is one of the argument names that the
/// text's command offers.
pub proof fn lemma_completion_is_argument(text: Seq<char>)
    ensures
        completion_of(text) matches Some((t, r)) ==> func_args_of(func_of_text(text)->0).contains(r),
{
    if let Some((t, r)) = completion_of(text) {
        let f = func_of_text(text)->0;
        lemma_best_alpha_member(func_args_of(f), t);
    }
}

/// The stored history holds each command at most once, only commands that
/// were sent, and never more than 50 of them.
pub proof fn lemma_kept_history(s: Seq<Seq<char>>)
    ensures
        trim_history(dedup(s)).len() <= 50,
        forall|i: int, j: int|
            0 <= i < j < trim_history(dedup(s)).len() ==> trim_history(dedup(s))[i] != trim_history(dedup(s))[j],
        forall|x: Seq<char>| #[trigger] trim_history(dedup(s)).contains(x) ==> s.contains(x),
{
    lemma_dedup_distinct(s);
    let u = dedup(s);
    if u.len() > 50 {
        let k = u.len() - 50 + 1;
        assert forall|i: int, j: int| 0 <= i < j < u.skip(k).len() implies u.skip(k)[i] != u.skip(k)[j] by {
            assert(u.skip(k)[i] == u[i + k]);
            assert(u.skip(k)[j] == u[j + k]);
        }
        assert forall|x: Seq<char>| #[trigger] u.skip(k).contains(x) implies s.contains(x) by {
            let w = choose|w: int| 0 <= w < u.skip(k).len() && u.skip(k)[w] == x;
            assert(u[w + k] == x);
        }
    }
}


/// Right after a command is sent, Up then Down brings it back: the history
/// cursor ends on it and the console shows it, however long the history was.
pub proof fn lemma_recall_after_send(data: Seq<Seq<char>>, sent: Seq<char>, text: Seq<char>)
    ensures
        ({
            let d = data.push(sent);
            let (i1, t1) = recall(d, d.len() - 1, -1, text);
            let (i2, t2) = recall(d, i1, 1, t1);
            i2 == d.len() - 1 && t2 == sent
        }),
{
}


/// Typing keeps what was there and only ever appends characters the console
/// accepts, at most one per key.
pub proof fn lemma_typing_appends_accepted(text: Seq<char>, typed: Seq<char>)
    ensures
        text.len() <= accept_typed(text, typed).len() <= text.len() + typed.len(),
        accept_typed(text, typed).take(text.len() as int) == text,
        forall|i: int|
            text.len() <= i < accept_typed(text, typed).len() ==> accepted_char(#[trigger] accept_typed(text, typed)[i]),
    decreases typed.len(),
{
    if typed.len() > 0 {
        lemma_typing_appends_accepted(text, typed.drop_last());
        let t = accept_typed(text, typed.drop_last());
        assert(t.take(text.len() as int) == text);
        if accepted_char(typed.last()) {
            assert(t.push(typed.last()).take(text.len() as int) =~= t.take(text.len() as int));
            assert forall|i: int|
                text.len() <= i < t.push(typed.last()).len() implies accepted_char(#[trigger] t.push(typed.last())[i]) by {
                if i < t.len() {
                    assert(t.push(typed.last())[i] == t[i]);
                }
            }
        }
    } else {
        assert(text.take(text.len() as int) =~= text);
    }
}


/// The history cursor rests on a stored command, or on zero when none is
/// stored.
pub open spec fn cursor_valid(len: nat, index: int) -> bool {
    ||| len == 0 && index == 0
    ||| 0 <= index < len
}

/// A valid history cursor stays valid through a frame of keys, and sending a
/// command leaves it on that command.
pub proof fn lemma_cursor_stays_valid(keys: ConsoleKeys, data: Seq<Seq<char>>, index: int, text: Seq<char>, sent: Seq<char>)
    requires
        cursor_valid(data.len(), index),
    ensures
        cursor_valid(data.len(), console_update(keys, data, index, text).0),
        cursor_valid(data.push(sent).len(), data.len() as int),
{
    lemma_history_cursor_in_range(data.len(), index, -1);
    let i4 = if keys.up {
        moved_index(data.len(), index, -1)
    } else {
        index
    };
    lemma_history_cursor_in_range(data.len(), i4, 1);
}


/// The console accepts exactly the letters and digits (alphanumeric
/// characters) and the ten symbols `_ . , - : ; | / \` and space.
pub proof fn lemma_console_accepts(c: char)
    ensures
        accepted_char(c) <==> (alphanumeric(c) || c == '_' || c == '.' || c == ',' || c == '-' || c == ':'
            || c == ';' || c == '|' || c == '/' || c == '\\' || c == ' '),
        accepted_char('_') && accepted_char('.') && accepted_char(',') && accepted_char('-'),
        accepted_char(':') && accepted_char(';') && accepted_char('|') && accepted_char('/'),
        accepted_char('\\') && accepted_char(' '),
{
}

/// Typing appends, in order, exactly the typed characters that the console
/// accepts.
pub proof fn lemma_typing_is_filter(text: Seq<char>, typed: Seq<char>)
    ensures
        accept_typed(text, typed) == text + typed.filter(|c: char| accepted_char(c)),
    decreases typed.len(),
{
    reveal(Seq::filter);
    if typed.len() == 0 {
        assert(text + typed.filter(|c: char| accepted_char(c)) =~= text);
    } else {
        lemma_typing_is_filter(text, typed.drop_last());
        let f = typed.drop_last().filter(|c: char| accepted_char(c));
        if accepted_char(typed.last()) {
            assert((text + f).push(typed.last()) =~= text + f.push(typed.last()));
        }
    }
}

/// The plane id that a plane command carries, `None` for other commands.
pub open spec fn plane_command_id(c: CommandSpec) -> Option<Option<u32>> {
    match c {
        CommandSpec::NewPlane { id, .. } => Some(id),
        CommandSpec::EditPlane { id, .. } => Some(id),
        _ => None,
    }
}

/// A plane command (`npd` or `pd`) with an `id:` argument that reads as a
/// `u32` uses that id, whatever id was set before; with an `id:` argument
/// that does not read it has no id; without an `id:` argument it uses the
/// set id, and needs one when none was set. `npd` makes a new plane and `pd`
/// edits one.
pub proof fn lemma_plane_command_id(text: Seq<char>, set_id: u32, default_id: u32)
    requires
        words(text).len() > 0,
        func_of(words(text)[0]) == Some(Funcs::NewPlaneData) || func_of(words(text)[0]) == Some(
            Funcs::PlaneData,
        ),
    ensures
        func_of(words(text)[0]) == Some(Funcs::NewPlaneData) ==> (command_of(text, set_id, default_id) is NewPlane
            || command_of(text, set_id, default_id) is NeedPlaneId),
        func_of(words(text)[0]) == Some(Funcs::PlaneData) ==> (command_of(text, set_id, default_id) is EditPlane
            || command_of(text, set_id, default_id) is NeedPlaneId),
        search_arg("id"@, words(text)) matches Some(a) ==> plane_command_id(command_of(text, set_id, default_id))
            == Some(
            match parse_unsigned(a, u32::MAX as nat) {
                Some(n) => Some(n as u32),
                None => None::<u32>,
            },
        ),
        search_arg("id"@, words(text)) is None && set_id != default_id ==> plane_command_id(
            command_of(text, set_id, default_id),
        ) == Some(Some(set_id)),
        search_arg("id"@, words(text)) is None && set_id == default_id ==> command_of(text, set_id, default_id)
            is NeedPlaneId,
{
}

} // verus!
