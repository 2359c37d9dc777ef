//! File picker popup for `@` references: the order in which a directory is listed,
//! filtering by name prefix, navigation, and the input edit that inserts the chosen path.
//! Reading the directory is left to the caller, which hands the raw entries in.

use vstd::prelude::*;

use crate::app_state::App;
use crate::chars::{lowercase, pop_char, push_char, push_chars, push_text, str_chars, string_of, to_lowercase};
use crate::keys::{KeyCode, KeyModifiers};

verus! {

broadcast use vstd::string::group_string_axioms;

/// What the picker shows of an entry: its name, whether it is a directory, and its path
/// relative to the workspace root.
pub type EntryView = (Seq<char>, bool, Seq<char>);

/// A single directory entry shown in the file picker.
pub struct DirEntry {
    pub name: String,
    pub is_dir: bool,
    /// Path relative to the workspace root, components joined by `/`.
    pub rel_path: String,
}

impl View for DirEntry {
    type V = EntryView;

    open spec fn view(&self) -> EntryView {
        (self.name@, self.is_dir, self.rel_path@)
    }
}

/// The views of a list of entries.
pub open spec fn entries_view(v: Seq<DirEntry>) -> Seq<EntryView> {
    v.map_values(|e: DirEntry| e@)
}

/// An entry of a directory as read from disk.
pub struct RawEntry {
    pub name: String,
    pub is_dir: bool,
    /// The workspace's ignore rules reject the name.
    pub ignored: bool,
}

impl View for RawEntry {
    type V = (Seq<char>, bool, bool);

    open spec fn view(&self) -> (Seq<char>, bool, bool) {
        (self.name@, self.is_dir, self.ignored)
    }
}

/// The views of a list of raw entries.
pub open spec fn raws_view(v: Seq<RawEntry>) -> Seq<(Seq<char>, bool, bool)> {
    v.map_values(|e: RawEntry| e@)
}

/// `a` comes before `b` in the order of `String`'s `Ord`: lexicographic by character.
pub open spec fn name_lt(a: Seq<char>, b: Seq<char>) -> bool
    decreases a.len(),
{
    if a.len() == 0 {
        b.len() > 0
    } else if b.len() == 0 {
        false
    } else if a[0] != b[0] {
        (a[0] as u32) < (b[0] as u32)
    } else {
        name_lt(a.drop_first(), b.drop_first())
    }
}

/// Index of the first entry of `s` whose name comes after `name` (or the length).
pub open spec fn first_after(s: Seq<EntryView>, name: Seq<char>) -> int
    decreases s.len(),
{
    if s.len() == 0 {
        0
    } else if name_lt(name, s[0].0) {
        0
    } else {
        1 + first_after(s.drop_first(), name)
    }
}

/// `s` with `e` put after every entry whose name does not come after its name.
pub open spec fn insert_by_name(s: Seq<EntryView>, e: EntryView) -> Seq<EntryView> {
    s.insert(first_after(s, e.0), e)
}

/// `s` sorted by name, entries with equal names kept in their order (a stable sort).
pub open spec fn sort_by_name(s: Seq<EntryView>) -> Seq<EntryView>
    decreases s.len(),
{
    if s.len() == 0 {
        s
    } else {
        insert_by_name(sort_by_name(s.drop_last()), s.last())
    }
}

/// Components joined by `/` (`PathBuf::join` of relative names).
pub open spec fn joined_path(parts: Seq<Seq<char>>) -> Seq<char>
    decreases parts.len(),
{
    if parts.len() == 0 {
        Seq::empty()
    } else if parts.len() == 1 {
        parts[0]
    } else {
        joined_path(parts.drop_last()).push('/') + parts.last()
    }
}

/// The picker shows the entry: its name is not hidden (no leading `.`) and not ignored.
pub open spec fn shown(raw: (Seq<char>, bool, bool)) -> bool {
    !(raw.0.len() > 0 && raw.0[0] == '.') && !raw.2
}

/// The entries shown of one kind (directories or files), in the order read, with their
/// paths below the directory `dir`.
pub open spec fn shown_of_kind(
    raws: Seq<(Seq<char>, bool, bool)>,
    dir: Seq<Seq<char>>,
    dirs: bool,
) -> Seq<EntryView>
    decreases raws.len(),
{
    if raws.len() == 0 {
        Seq::empty()
    } else {
        let sub = shown_of_kind(raws.drop_last(), dir, dirs);
        let r = raws.last();
        if shown(r) && r.1 == dirs {
            sub.push((r.0, r.1, joined_path(dir.push(r.0))))
        } else {
            sub
        }
    }
}

/// The picker's listing of directory `dir`: the shown directories by name, then the
/// shown files by name.
pub open spec fn listing(raws: Seq<(Seq<char>, bool, bool)>, dir: Seq<Seq<char>>) -> Seq<
    EntryView,
> {
    sort_by_name(shown_of_kind(raws, dir, true)) + sort_by_name(shown_of_kind(raws, dir, false))
}

/// Whether `a` comes before `b` (see `name_lt`).
pub fn name_less(a: &str, b: &str) -> (r: bool)
    ensures
        r == name_lt(a@, b@),
{
    let va = str_chars(a);
    let vb = str_chars(b);
    let mut i: usize = 0;
    assert(va@.skip(0) == va@ && vb@.skip(0) == vb@);
    while i < va.len() && i < vb.len() && va[i] == vb[i]
        invariant
            va@ == a@,
            vb@ == b@,
            i <= va@.len(),
            i <= vb@.len(),
            name_lt(a@, b@) == name_lt(va@.skip(i as int), vb@.skip(i as int)),
        decreases va@.len() - i,
    {
        assert(va@.skip(i as int).drop_first() == va@.skip(i + 1));
        assert(vb@.skip(i as int).drop_first() == vb@.skip(i + 1));
        i = i + 1;
    }
    if i == va.len() {
        i < vb.len()
    } else if i == vb.len() {
        false
    } else {
        (va[i] as u32) < (vb[i] as u32)
    }
}

/// Put `e` into the name-sorted `v` after every entry whose name does not come after its
/// name.
fn insert_by_name_exec(v: &mut Vec<DirEntry>, e: DirEntry)
    ensures
        entries_view(final(v)@) == insert_by_name(entries_view(old(v)@), e@),
{
    let ghost s = entries_view(v@);
    let mut p: usize = 0;
    assert(s.skip(0) == s);
    while p < v.len() && !name_less(&e.name, &v[p].name)
        invariant
            s == entries_view(v@),
            p <= v@.len(),
            first_after(s, e@.0) == p + first_after(s.skip(p as int), e@.0),
        decreases v@.len() - p,
    {
        assert(s.skip(p as int)[0] == v@[p as int]@);
        assert(s.skip(p as int).drop_first() == s.skip(p + 1));
        p = p + 1;
    }
    proof {
        if p < v@.len() {
            assert(s.skip(p as int)[0] == v@[p as int]@);
        }
    }
    let ghost before = v@;
    v.insert(p, e);
    assert(entries_view(v@) =~= s.insert(p as int, e@));
}

/// The relative path of `name` in the directory `dir`.
fn path_in(dir: &Vec<String>, name: &str) -> (r: String)
    ensures
        r@ == joined_path(dir@.map_values(|c: String| c@).push(name@)),
{
    let ghost parts = dir@.map_values(|c: String| c@);
    let mut r = String::new();
    let mut i: usize = 0;
    while i < dir.len()
        invariant
            i <= dir@.len(),
            parts == dir@.map_values(|c: String| c@),
            i == 0 ==> r@ == Seq::<char>::empty(),
            i > 0 ==> r@ == joined_path(parts.take(i as int)),
        decreases dir@.len() - i,
    {
        if i > 0 {
            push_char(&mut r, '/');
        }
        push_text(&mut r, &dir[i]);
        assert(parts.take(i + 1).drop_last() == parts.take(i as int));
        assert(parts.take(i + 1).last() == dir@[i as int]@);
        i = i + 1;
    }
    let ghost all = parts.push(name@);
    if dir.len() > 0 {
        push_char(&mut r, '/');
    }
    push_text(&mut r, name);
    assert(all.drop_last() == parts);
    assert(parts.take(parts.len() as int) == parts);
    r
}

/// Arrange the raw entries of directory `dir` the way the picker lists them (see
/// `listing`).
pub fn arrange_entries(dir: &Vec<String>, raws: Vec<RawEntry>) -> (r: Vec<DirEntry>)
    ensures
        entries_view(r@) == listing(raws_view(raws@), dir@.map_values(|c: String| c@)),
{
    let ghost rv = raws_view(raws@);
    let ghost parts = dir@.map_values(|c: String| c@);
    let mut dirs: Vec<DirEntry> = Vec::new();
    let mut files: Vec<DirEntry> = Vec::new();
    let mut i: usize = 0;
    while i < raws.len()
        invariant
            i <= raws@.len(),
            rv == raws_view(raws@),
            parts == dir@.map_values(|c: String| c@),
            entries_view(dirs@) == sort_by_name(shown_of_kind(rv.take(i as int), parts, true)),
            entries_view(files@) == sort_by_name(shown_of_kind(rv.take(i as int), parts, false)),
        decreases raws@.len() - i,
    {
        let raw = &raws[i];
        assert(rv.take(i + 1).drop_last() == rv.take(i as int));
        assert(rv.take(i + 1).last() == raw@);
        let chars = str_chars(&raw.name);
        let hidden = chars.len() > 0 && chars[0] == '.';
        let ghost kd = shown_of_kind(rv.take(i as int), parts, true);
        let ghost kf = shown_of_kind(rv.take(i as int), parts, false);
        if !hidden && !raw.ignored {
            let e = DirEntry {
                name: raw.name.clone(),
                is_dir: raw.is_dir,
                rel_path: path_in(dir, &raw.name),
            };
            assert(e@ == (raw@.0, raw@.1, joined_path(parts.push(raw@.0))));
            if raw.is_dir {
                assert(shown_of_kind(rv.take(i + 1), parts, true) == kd.push(e@));
                assert(shown_of_kind(rv.take(i + 1), parts, false) == kf);
                assert(kd.push(e@).drop_last() == kd);
                insert_by_name_exec(&mut dirs, e);
            } else {
                assert(shown_of_kind(rv.take(i + 1), parts, false) == kf.push(e@));
                assert(shown_of_kind(rv.take(i + 1), parts, true) == kd);
                assert(kf.push(e@).drop_last() == kf);
                insert_by_name_exec(&mut files, e);
            }
        } else {
            assert(!shown(raw@));
            assert(shown_of_kind(rv.take(i + 1), parts, true) == kd);
            assert(shown_of_kind(rv.take(i + 1), parts, false) == kf);
        }
        i = i + 1;
    }
    assert(rv.take(rv.len() as int) == rv);
    let ghost d = dirs@;
    let ghost f = files@;
    dirs.append(&mut files);
    assert(entries_view(dirs@) =~= entries_view(d) + entries_view(f));
    dirs
}

/// State for the file picker popup (opened when user types `@` at start or after whitespace).
pub struct FilePickerState {
    /// The directory shown, as its components below the workspace root.
    pub current_dir: Vec<String>,
    pub all_entries: Vec<DirEntry>,
    pub filter: String,
    pub selected_index: usize,
    /// Character offset of `@` in the input.
    pub at_token_start: usize,
    /// The directory changed and its entries have to be read again (see `reload`).
    pub needs_reload: bool,
}

/// The components of a directory.
pub open spec fn dir_parts(dir: Seq<String>) -> Seq<Seq<char>> {
    dir.map_values(|c: String| c@)
}

/// The name starts with the filter, ignoring case (both lowercased).
pub open spec fn name_matches(name: Seq<char>, filter: Seq<char>) -> bool {
    crate::chars::starts_with(lowercase(name), lowercase(filter))
}

/// The entries whose names match the filter, in order.
pub open spec fn matching(entries: Seq<EntryView>, filter: Seq<char>) -> Seq<EntryView>
    decreases entries.len(),
{
    if entries.len() == 0 {
        Seq::empty()
    } else {
        let sub = matching(entries.drop_last(), filter);
        if name_matches(entries.last().0, filter) {
            sub.push(entries.last())
        } else {
            sub
        }
    }
}

/// The views of a list of entry references.
pub open spec fn entry_refs_view(v: Seq<&DirEntry>) -> Seq<EntryView> {
    v.map_values(|e: &DirEntry| e@)
}

/// The picker moved into the subdirectory `name`: its entries are to be read again, with
/// an empty filter and the first entry selected.
pub open spec fn descended(before: FilePickerState, after: FilePickerState, name: Seq<char>) -> bool {
    &&& after.current_dir@ == before.current_dir@.push(after.current_dir@.last())
    &&& after.current_dir@.last()@ == name
    &&& after.entries() == Seq::<EntryView>::empty()
    &&& after.filter@ == Seq::<char>::empty()
    &&& after.selected_index == 0
    &&& after.at_token_start == before.at_token_start
    &&& after.needs_reload
}

/// The picker moved to the parent directory; at the workspace root nothing changed.
pub open spec fn ascended(before: FilePickerState, after: FilePickerState) -> bool {
    if before.current_dir@.len() == 0 {
        after == before
    } else {
        &&& after.current_dir@ == before.current_dir@.drop_last()
        &&& after.entries() == Seq::<EntryView>::empty()
        &&& after.filter@ == Seq::<char>::empty()
        &&& after.selected_index == 0
        &&& after.at_token_start == before.at_token_start
        &&& after.needs_reload
    }
}

impl FilePickerState {
    /// The entries listed, as the picker shows them.
    pub open spec fn entries(&self) -> Seq<EntryView> {
        entries_view(self.all_entries@)
    }

    /// The entries that match the filter.
    pub open spec fn shown_entries(&self) -> Seq<EntryView> {
        matching(self.entries(), self.filter@)
    }

    /// Open the picker on directory `dir` (components below the workspace root) with the
    /// entries read there; `at_token_start` is where the `@` stands in the input.
    pub fn open(dir: Vec<String>, at_token_start: usize, raws: Vec<RawEntry>) -> (r: Self)
        ensures
            r.current_dir@ == dir@,
            r.entries() == listing(raws_view(raws@), dir_parts(dir@)),
            r.filter@ == Seq::<char>::empty(),
            r.selected_index == 0,
            r.at_token_start == at_token_start,
            !r.needs_reload,
    {
        let entries = arrange_entries(&dir, raws);
        FilePickerState {
            current_dir: dir,
            all_entries: entries,
            filter: String::new(),
            selected_index: 0,
            at_token_start,
            needs_reload: false,
        }
    }

    /// Return entries whose names start with the current filter (case-insensitive).
    pub fn filtered_entries(&self) -> (r: Vec<&DirEntry>)
        ensures
            entry_refs_view(r@) == self.shown_entries(),
    {
        let lower_filter = to_lowercase(&self.filter);
        let fv = str_chars(&lower_filter);
        let ghost all = self.entries();
        let mut r: Vec<&DirEntry> = Vec::new();
        let mut i: usize = 0;
        while i < self.all_entries.len()
            invariant
                i <= self.all_entries@.len(),
                all == self.entries(),
                fv@ == lowercase(self.filter@),
                entry_refs_view(r@) == matching(all.take(i as int), self.filter@),
            decreases self.all_entries@.len() - i,
        {
            let e = &self.all_entries[i];
            let lower_name = to_lowercase(&e.name);
            let nv = str_chars(&lower_name);
            assert(all.take(i + 1).drop_last() == all.take(i as int));
            assert(all.take(i + 1).last() == e@);
            if crate::chars::occurs_at_exec(&nv, fv.as_slice(), 0) {
                r.push(e);
                assert(entry_refs_view(r@) == matching(all.take(i as int), self.filter@).push(e@));
            }
            i = i + 1;
        }
        assert(all.take(all.len() as int) == all);
        r
    }

    /// Number of entries that match the filter.
    pub fn filtered_count(&self) -> (r: usize)
        ensures
            r == self.shown_entries().len(),
    {
        self.filtered_entries().len()
    }

    /// Descend into a subdirectory and reset the filter; its entries are to be read.
    pub fn descend(&mut self, name: &str)
        ensures
            descended(*old(self), *final(self), name@),
    {
        self.current_dir.push(name.to_string());
        self.filter = String::new();
        self.all_entries = Vec::new();
        self.selected_index = 0;
        self.needs_reload = true;
        assert(self.entries() =~= Seq::<EntryView>::empty());
    }

    /// Ascend to the parent directory, unless already at the workspace root.
    pub fn ascend(&mut self)
        ensures
            ascended(*old(self), *final(self)),
    {
        if self.current_dir.len() == 0 {
            return;
        }
        self.current_dir.pop();
        self.filter = String::new();
        self.all_entries = Vec::new();
        self.selected_index = 0;
        self.needs_reload = true;
        assert(self.entries() =~= Seq::<EntryView>::empty());
    }

    /// Take the entries read from the current directory and reset the selection.
    pub fn reload(&mut self, raws: Vec<RawEntry>)
        ensures
            final(self).current_dir == old(self).current_dir,
            final(self).entries() == listing(raws_view(raws@), dir_parts(old(self).current_dir@)),
            final(self).filter == old(self).filter,
            final(self).selected_index == 0,
            final(self).at_token_start == old(self).at_token_start,
            !final(self).needs_reload,
    {
        self.all_entries = arrange_entries(&self.current_dir, raws);
        self.selected_index = 0;
        self.needs_reload = false;
    }
}

/// Result of a key event inside the file picker.
pub enum FilePickerAction {
    /// Insert the selected file path at the `@` token position.
    Insert { rel_path: String },
    /// Close the picker and remove the `@` + filter text that was typed.
    Cancel,
    /// Keep the picker open (navigation / filter update).
    Keep,
}

/// The picker after the filter changed to `filter`: the selection is clamped to the
/// entries that match.
pub open spec fn clamped_selection(sel: usize, n: nat) -> usize {
    if n > 0 && sel >= n {
        (n - 1) as usize
    } else if n == 0 {
        0
    } else {
        sel
    }
}

/// What a key did to the picker (`a` before, `b` after) and the action it returned.
pub open spec fn picker_key_done(
    a: FilePickerState,
    b: FilePickerState,
    r: FilePickerAction,
    code: KeyCode,
    mods: KeyModifiers,
) -> bool {
    let shown = a.shown_entries();
    let n = shown.len();
    match code {
        KeyCode::Esc => b == a && r is Cancel,
        KeyCode::Up => r is Keep && b == (FilePickerState {
            selected_index: if n > 0 {
                crate::main_input::prev_index(a.selected_index, n as usize)
            } else {
                a.selected_index
            },
            ..a
        }),
        KeyCode::Down => r is Keep && b == (FilePickerState {
            selected_index: if n > 0 {
                crate::main_input::next_index(a.selected_index, n as usize)
            } else {
                a.selected_index
            },
            ..a
        }),
        KeyCode::Enter => if n == 0 {
            b == a && r is Keep
        } else {
            let e = shown[if a.selected_index < n {
                a.selected_index as int
            } else {
                n - 1
            }];
            if e.1 {
                &&& r is Keep
                &&& b.current_dir@ == a.current_dir@.push(b.current_dir@.last())
                &&& b.current_dir@.last()@ == e.0
                &&& b.entries() == Seq::<EntryView>::empty()
                &&& b.filter@ == Seq::<char>::empty()
                &&& b.selected_index == 0
                &&& b.at_token_start == a.at_token_start
                &&& b.needs_reload
            } else {
                &&& b == a
                &&& r matches FilePickerAction::Insert { rel_path } && rel_path@ == e.2
            }
        },
        KeyCode::Backspace => r is Keep && if a.filter@.len() > 0 {
            &&& b.filter@ == a.filter@.drop_last()
            &&& b == (FilePickerState { filter: b.filter, selected_index: 0, ..a })
        } else if a.current_dir@.len() == 0 {
            b == a
        } else {
            &&& b.current_dir@ == a.current_dir@.drop_last()
            &&& b.entries() == Seq::<EntryView>::empty()
            &&& b.filter@ == Seq::<char>::empty()
            &&& b.selected_index == 0
            &&& b.at_token_start == a.at_token_start
            &&& b.needs_reload
        },
        KeyCode::Char(c) => r is Keep && if !mods.alt && !mods.control {
            &&& b.filter@ == a.filter@.push(c)
            &&& b == (FilePickerState {
                filter: b.filter,
                selected_index: clamped_selection(
                    a.selected_index,
                    matching(a.entries(), a.filter@.push(c)).len(),
                ),
                ..a
            })
        } else {
            b == a
        },
        _ => b == a && r is Keep,
    }
}

/// Handle a single key event for the file picker popup, returning the action to take.
pub fn handle_file_picker_key(code: KeyCode, mods: KeyModifiers, picker: &mut FilePickerState) -> (r:
    FilePickerAction)
    ensures
        picker_key_done(*old(picker), *final(picker), r, code, mods),
        final(picker).at_token_start == old(picker).at_token_start,
{
    match code {
        KeyCode::Esc => FilePickerAction::Cancel,
        KeyCode::Up => {
            let n = picker.filtered_count();
            if n > 0 {
                picker.selected_index = if picker.selected_index == 0 {
                    n - 1
                } else {
                    picker.selected_index - 1
                };
            }
            FilePickerAction::Keep
        },
        KeyCode::Down => {
            let n = picker.filtered_count();
            if n > 0 {
                picker.selected_index = crate::main_input::next_in_cycle(picker.selected_index, n);
            }
            FilePickerAction::Keep
        },
        KeyCode::Enter => {
            let (is_dir, name, rel_path) = {
                let filtered = picker.filtered_entries();
                if filtered.len() == 0 {
                    return FilePickerAction::Keep;
                }
                let idx = if picker.selected_index < filtered.len() {
                    picker.selected_index
                } else {
                    filtered.len() - 1
                };
                let entry = filtered[idx];
                assert(entry@ == picker.shown_entries()[idx as int]);
                (entry.is_dir, entry.name.clone(), entry.rel_path.clone())
            };
            if is_dir {
                picker.descend(&name);
                FilePickerAction::Keep
            } else {
                FilePickerAction::Insert { rel_path }
            }
        },
        KeyCode::Backspace => {
            if str_chars(&picker.filter).len() > 0 {
                pop_char(&mut picker.filter);
                picker.selected_index = 0;
            } else {
                picker.ascend();
            }
            FilePickerAction::Keep
        },
        KeyCode::Char(c) => {
            if !mods.alt && !mods.control {
                push_char(&mut picker.filter, c);
                let n = picker.filtered_count();
                if n > 0 && picker.selected_index >= n {
                    picker.selected_index = n - 1;
                } else if n == 0 {
                    picker.selected_index = 0;
                }
            }
            FilePickerAction::Keep
        },
        _ => FilePickerAction::Keep,
    }
}

/// `s` with the characters `start..end` replaced by `t`.
pub open spec fn replaced(s: Seq<char>, start: int, end: int, t: Seq<char>) -> Seq<char> {
    s.take(start) + t + s.skip(end)
}

/// The text put into the input for a chosen path: `@`, the path, and a space.
pub open spec fn reference_text(rel_path: Seq<char>) -> Seq<char> {
    seq!['@'] + rel_path + seq![' ']
}

/// `v` with the characters `start..end` replaced by `t`, and the position after `t`.
fn spliced(v: &Vec<char>, start: usize, end: usize, t: &str) -> (r: (String, usize))
    requires
        start <= end <= v@.len(),
    ensures
        r.0@ == replaced(v@, start as int, end as int, t@),
        r.1 == start + t@.len(),
{
    let mut text = string_of(v, 0, start);
    push_text(&mut text, t);
    push_chars(&mut text, v, end, v.len());
    assert(v@.subrange(0, start as int) == v@.take(start as int));
    assert(v@.subrange(end as int, v@.len() as int) == v@.skip(end as int));
    assert(text@ =~= replaced(v@, start as int, end as int, t@));
    let total = str_chars(&text).len();
    (text, total - (v.len() - end))
}

/// Dispatch a key to the open file picker and apply its action to the input: a chosen
/// file replaces the `@` and the filter typed after it by its reference, a cancel removes
/// them; either closes the picker.
pub fn handle_file_picker(code: KeyCode, mods: KeyModifiers, app: &mut App)
    ensures
        old(app).file_picker is None ==> *final(app) == *old(app),
        old(app).file_picker matches Some(p) ==> exists|q: FilePickerState, r: FilePickerAction|
            {
                let len = old(app).input@.len() as int;
                let end = if old(app).input_cursor < len {
                    old(app).input_cursor as int
                } else {
                    len
                };
                let start = if p.at_token_start < end {
                    p.at_token_start as int
                } else {
                    end
                };
                &&& #[trigger] picker_key_done(p, q, r, code, mods)
                &&& match r {
                    FilePickerAction::Insert { rel_path } => {
                        &&& final(app).input@ == replaced(
                            old(app).input@,
                            start,
                            end,
                            reference_text(rel_path@),
                        )
                        &&& *final(app) == (App {
                            input: final(app).input,
                            input_cursor: (start + reference_text(rel_path@).len()) as usize,
                            file_picker: None,
                            ..*old(app)
                        })
                    },
                    FilePickerAction::Cancel => {
                        &&& final(app).input@ == replaced(old(app).input@, start, end, Seq::empty())
                        &&& *final(app) == (App {
                            input: final(app).input,
                            input_cursor: start as usize,
                            file_picker: None,
                            ..*old(app)
                        })
                    },
                    FilePickerAction::Keep => *final(app) == (App {
                        file_picker: Some(q),
                        ..*old(app)
                    }),
                }
            },
{
    let mut picker = match app.file_picker.take() {
        Some(p) => p,
        None => {
            return;
        },
    };
    let ghost p0 = picker;
    let action = handle_file_picker_key(code, mods, &mut picker);
    assert(picker_key_done(p0, picker, action, code, mods));
    let v = str_chars(&app.input);
    let end = if app.input_cursor < v.len() {
        app.input_cursor
    } else {
        v.len()
    };
    let start = if picker.at_token_start < end {
        picker.at_token_start
    } else {
        end
    };
    match action {
        FilePickerAction::Insert { rel_path } => {
            let mut insertion = String::new();
            push_char(&mut insertion, '@');
            push_text(&mut insertion, &rel_path);
            push_char(&mut insertion, ' ');
            assert(insertion@ =~= reference_text(rel_path@));
            let (text, cursor) = spliced(&v, start, end, &insertion);
            app.input = text;
            app.input_cursor = cursor;
            app.file_picker = None;
        },
        FilePickerAction::Cancel => {
            let (text, cursor) = spliced(&v, start, end, "");
            assert(""@.len() == 0) by {
                reveal_strlit("");
            }
            assert(""@ =~= Seq::<char>::empty()) by {
                reveal_strlit("");
            }
            app.input = text;
            app.input_cursor = cursor;
            app.file_picker = None;
        },
        FilePickerAction::Keep => {
            app.file_picker = Some(picker);
        },
    }
}

} // verus!
