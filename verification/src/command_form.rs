//! Create/update command form: custom templates, validation, and the form's key handling.

use vstd::prelude::*;

use crate::app_state::App;
use crate::handlers::HandleResult;
use crate::keys::{KeyCode, KeyModifiers};
use crate::chars::{
    pop_char, push_char, strs, is_blank, lowercase, same_text, str_chars, string_of, to_lowercase, trim,
    trimmed_string,
};

verus! {

broadcast use vstd::string::group_string_axioms;

/// A user-defined slash command.
#[derive(Clone)]
pub struct CustomTemplate {
    pub name: String,
    pub description: String,
    pub prompt_prefix: String,
    pub mode: String,
}

impl CustomTemplate {
    /// A copy of this template.
    pub fn duplicate(&self) -> (r: CustomTemplate)
        ensures
            r == *self,
    {
        CustomTemplate {
            name: self.name.clone(),
            description: self.description.clone(),
            prompt_prefix: self.prompt_prefix.clone(),
            mode: self.mode.clone(),
        }
    }
}

/// Which field is focused in the command form.
#[derive(Debug, Clone, Copy, PartialEq, Eq, Structural)]
pub enum CommandFormField {
    Name,
    Description,
    Prompt,
    Mode,
}

/// Phase of the command form popup.
#[derive(Debug, Clone, Copy, PartialEq, Eq, Structural)]
pub enum CommandFormPhase {
    SelectCommand,
    EditForm,
}

#[derive(Clone)]
pub enum CommandFormMode {
    Create,
    Update {
        /// Original name (for validation: exclude from conflict check).
        original_name: Option<String>,
    },
}

/// State for create/update command popup.
pub struct CommandFormState {
    pub form_mode: CommandFormMode,
    pub name: String,
    pub description: String,
    pub prompt_prefix: String,
    pub llm_mode: String,
    pub focused_field: CommandFormField,
    pub error: Option<String>,
    pub phase: CommandFormPhase,
    pub selected_index: usize,
}

/// A name character: ASCII letter or digit, '-' or '_'.
pub open spec fn is_name_char(c: char) -> bool {
    ('a' <= c && c <= 'z') || ('A' <= c && c <= 'Z') || ('0' <= c && c <= '9') || c == '-' || c
        == '_'
}

/// `exclude` names the same command as `other`, ignoring case.
pub open spec fn excluded(exclude: Option<Seq<char>>, other: Seq<char>) -> bool {
    match exclude {
        Some(ex) => lowercase(ex) == lowercase(other),
        None => false,
    }
}

/// Why a command name is refused, if it is: blank; holding a character other than a
/// letter, digit, '-' or '_'; equal (ignoring case) to a built-in command; or equal
/// (ignoring case) to another custom command than the one being edited.
pub open spec fn name_error(
    name: Seq<char>,
    exclude: Option<Seq<char>>,
    custom: Seq<Seq<char>>,
    builtin: Seq<Seq<char>>,
) -> Option<Seq<char>> {
    if trim(name).len() == 0 {
        Some("Name cannot be empty"@)
    } else if exists|i: int| 0 <= i < name.len() && !is_name_char(#[trigger] name[i]) {
        Some("Name must contain only letters, numbers, hyphens, and underscores"@)
    } else if builtin.contains(lowercase(name)) {
        Some("Name conflicts with built-in command"@)
    } else if exists|k: int|
        0 <= k < custom.len() && lowercase(#[trigger] custom[k]) == lowercase(name) && !excluded(
            exclude,
            custom[k],
        ) {
        Some("Name already used by another custom command"@)
    } else {
        None
    }
}

pub open spec fn opt_str_view(o: Option<&str>) -> Option<Seq<char>> {
    match o {
        Some(s) => Some(s@),
        None => None,
    }
}

pub open spec fn result_view(o: Option<String>) -> Option<Seq<char>> {
    match o {
        Some(s) => Some(s@),
        None => None,
    }
}

fn has_bad_char(name: &str) -> (r: bool)
    ensures
        r == exists|i: int| 0 <= i < name@.len() && !is_name_char(#[trigger] name@[i]),
{
    let v = str_chars(name);
    let mut i: usize = 0;
    while i < v.len()
        invariant
            v@ == name@,
            i <= v@.len(),
            forall|k: int| 0 <= k < i ==> is_name_char(#[trigger] v@[k]),
        decreases v@.len() - i,
    {
        let c = v[i];
        if !(('a' <= c && c <= 'z') || ('A' <= c && c <= 'Z') || ('0' <= c && c <= '9') || c == '-'
            || c == '_') {
            assert(!is_name_char(name@[i as int]));
            return true;
        }
        i = i + 1;
    }
    false
}

fn is_builtin(lower: &str, builtin_names: &[&str]) -> (r: bool)
    ensures
        r == builtin_names@.map_values(|b: &str| b@).contains(lower@),
{
    let ghost bv = builtin_names@.map_values(|b: &str| b@);
    let mut i: usize = 0;
    while i < builtin_names.len()
        invariant
            bv == builtin_names@.map_values(|b: &str| b@),
            i <= builtin_names@.len(),
            forall|k: int| 0 <= k < i ==> bv[k] != lower@,
        decreases builtin_names@.len() - i,
    {
        if same_text(builtin_names[i], lower) {
            assert(bv[i as int] == lower@);
            return true;
        }
        i = i + 1;
    }
    false
}

pub fn validate_name(name: &str, exclude: Option<&str>, custom_names: &[String], builtin_names: &[&str]) -> (r: Option<String>)
    ensures
        result_view(r) == name_error(
            name@,
            opt_str_view(exclude),
            strs(custom_names@),
            builtin_names@.map_values(|b: &str| b@),
        ),
{
    let ghost custom = strs(custom_names@);
    if is_blank(name) {
        return Some("Name cannot be empty".to_string());
    }
    if has_bad_char(name) {
        return Some("Name must contain only letters, numbers, hyphens, and underscores".to_string());
    }
    let name_lower = to_lowercase(name);
    if is_builtin(name_lower.as_str(), builtin_names) {
        return Some("Name conflicts with built-in command".to_string());
    }
    let ex_lower = match exclude {
        Some(ex) => Some(to_lowercase(ex)),
        None => None,
    };
    let mut i: usize = 0;
    while i < custom_names.len()
        invariant
            custom == strs(custom_names@),
            i <= custom_names@.len(),
            name_lower@ == lowercase(name@),
            trim(name@).len() != 0,
            !exists|j: int| 0 <= j < name@.len() && !is_name_char(#[trigger] name@[j]),
            !builtin_names@.map_values(|b: &str| b@).contains(lowercase(name@)),
            match exclude {
                Some(ex) => ex_lower matches Some(l) && l@ == lowercase(ex@),
                None => ex_lower is None,
            },
            forall|k: int|
                0 <= k < i ==> !(lowercase(#[trigger] custom[k]) == lowercase(name@) && !excluded(
                    opt_str_view(exclude),
                    custom[k],
                )),
        decreases custom_names@.len() - i,
    {
        let other_lower = to_lowercase(custom_names[i].as_str());
        if same_text(other_lower.as_str(), name_lower.as_str()) {
            let skip = match &ex_lower {
                Some(l) => same_text(l.as_str(), other_lower.as_str()),
                None => false,
            };
            if !skip {
                assert(lowercase(custom[i as int]) == lowercase(name@) && !excluded(
                    opt_str_view(exclude),
                    custom[i as int],
                ));
                return Some("Name already used by another custom command".to_string());
            }
        }
        i = i + 1;
    }
    None
}

/// The original name of a form that updates a command, if known.
pub open spec fn form_exclude(mode: CommandFormMode) -> Option<Seq<char>> {
    match mode {
        CommandFormMode::Update { original_name: Some(n) } => Some(n@),
        _ => None,
    }
}

/// Why the form cannot be saved, if it cannot: a name error, else a blank description,
/// else a blank prompt, else a mode other than "Ask" or "Build".
pub open spec fn form_error(
    state: CommandFormState,
    custom: Seq<Seq<char>>,
    builtin: Seq<Seq<char>>,
) -> Option<Seq<char>> {
    match name_error(state.name@, form_exclude(state.form_mode), custom, builtin) {
        Some(e) => Some(e),
        None => if trim(state.description@).len() == 0 {
            Some("Description cannot be empty"@)
        } else if trim(state.prompt_prefix@).len() == 0 {
            Some("Prompt cannot be empty"@)
        } else if state.llm_mode@ != "Ask"@ && state.llm_mode@ != "Build"@ {
            Some("Mode must be Ask or Build"@)
        } else {
            None
        },
    }
}

/// The names of the templates.
pub open spec fn template_names(ts: Seq<CustomTemplate>) -> Seq<Seq<char>> {
    ts.map_values(|t: CustomTemplate| t.name@)
}

pub fn validate_form(state: &CommandFormState, custom_templates: &[CustomTemplate], builtin_names: &[&str]) -> (r: Option<String>)
    ensures
        result_view(r) == form_error(
            *state,
            template_names(custom_templates@),
            builtin_names@.map_values(|b: &str| b@),
        ),
{
    let mut custom_names: Vec<String> = Vec::new();
    let mut i: usize = 0;
    while i < custom_templates.len()
        invariant
            i <= custom_templates@.len(),
            custom_names@.len() == i,
            forall|k: int| 0 <= k < i ==> (#[trigger] custom_names@[k])@ == custom_templates@[k].name@,
        decreases custom_templates@.len() - i,
    {
        custom_names.push(custom_templates[i].name.clone());
        i = i + 1;
    }
    assert(strs(custom_names@) =~= template_names(custom_templates@));
    let exclude: Option<&str> = match &state.form_mode {
        CommandFormMode::Update { original_name: Some(n) } => Some(n.as_str()),
        _ => None,
    };
    if let Some(e) = validate_name(state.name.as_str(), exclude, custom_names.as_slice(), builtin_names) {
        return Some(e);
    }
    if is_blank(state.description.as_str()) {
        return Some("Description cannot be empty".to_string());
    }
    if is_blank(state.prompt_prefix.as_str()) {
        return Some("Prompt cannot be empty".to_string());
    }
    if !same_text(state.llm_mode.as_str(), "Ask") && !same_text(state.llm_mode.as_str(), "Build") {
        return Some("Mode must be Ask or Build".to_string());
    }
    None
}

/// Label of a form field.
pub open spec fn field_name(f: CommandFormField) -> Seq<char> {
    match f {
        CommandFormField::Name => "Name"@,
        CommandFormField::Description => "Description"@,
        CommandFormField::Prompt => "Prompt"@,
        CommandFormField::Mode => "Mode"@,
    }
}

/// The line shown for a form field: a focus marker, the label, and the value (or the
/// label followed by "..." for an empty text field).
pub open spec fn field_line(f: CommandFormField, value: Seq<char>, focused: bool) -> Seq<char> {
    let display = if value.len() == 0 && f != CommandFormField::Mode {
        field_name(f) + "..."@
    } else {
        value
    };
    (if focused {
        "▸ "@
    } else {
        "  "@
    }) + field_name(f) + ": "@ + display
}

pub fn field_label(f: CommandFormField, value: &str, focused: bool) -> (r: (String, bool))
    ensures
        r.0@ == field_line(f, value@, focused),
        r.1 == focused,
{
    let label = match f {
        CommandFormField::Name => "Name",
        CommandFormField::Description => "Description",
        CommandFormField::Prompt => "Prompt",
        CommandFormField::Mode => "Mode",
    };
    let mut text = if focused {
        "▸ ".to_string()
    } else {
        "  ".to_string()
    };
    text.append(label);
    text.append(": ");
    let v = str_chars(value);
    if v.len() == 0 && f != CommandFormField::Mode {
        text.append(label);
        text.append("...");
    } else {
        text.append(value);
    }
    (text, focused)
}

/// The template that a form saves: its fields, trimmed.
pub open spec fn saved_template(t: CustomTemplate, state: CommandFormState) -> bool {
    &&& t.name@ == trim(state.name@)
    &&& t.description@ == trim(state.description@)
    &&& t.prompt_prefix@ == trim(state.prompt_prefix@)
    &&& t.mode == state.llm_mode
}

/// Index of the first template whose name equals `name` ignoring case.
pub open spec fn first_named(ts: Seq<CustomTemplate>, name: Seq<char>) -> Option<int> {
    if exists|k: int| 0 <= k < ts.len() && lowercase(#[trigger] ts[k].name@) == lowercase(name) {
        Some(
            choose|k: int|
                0 <= k < ts.len() && lowercase(#[trigger] ts[k].name@) == lowercase(name) && forall|
                    j: int,
                |
                    0 <= j < k ==> lowercase(#[trigger] ts[j].name@) != lowercase(name),
        )
    } else {
        None
    }
}

/// `after` is `before` with the form applied: a created command appended, an updated one
/// in place of the first template with its original name (ignoring case); nothing
/// changes for an update whose original name is unknown or matches no template.
pub open spec fn templates_saved(
    before: Seq<CustomTemplate>,
    after: Seq<CustomTemplate>,
    state: CommandFormState,
) -> bool {
    match state.form_mode {
        CommandFormMode::Create => after.len() == before.len() + 1 && after.drop_last() == before
            && saved_template(after.last(), state),
        CommandFormMode::Update { original_name: Some(orig) } => match first_named(before, orig@) {
            Some(k) => after.len() == before.len() && saved_template(after[k], state) && forall|
                j: int,
            |
                0 <= j < before.len() && j != k ==> after[j] == before[j],
            None => after == before,
        },
        CommandFormMode::Update { original_name: None } => after == before,
    }
}

/// Applies a validated form to the custom templates: a created command is appended, an
/// updated one replaces the first template with its original name (ignoring case).
/// Returns whether the templates are to be written back (false for an update whose
/// original name is unknown, which changes nothing).
#[verifier::loop_isolation(false)]
pub fn save_command(app: &mut App, state: CommandFormState) -> (persist: bool)
    ensures
        persist == !(state.form_mode matches CommandFormMode::Update { original_name: None }),
        *final(app) == (App { custom_templates: final(app).custom_templates, ..*old(app) }),
        templates_saved(old(app).custom_templates@, final(app).custom_templates@, state),
{
    let CommandFormState { form_mode, name, description, prompt_prefix, llm_mode, .. } = state;
    let template = CustomTemplate {
        name: trimmed_string(name.as_str()),
        description: trimmed_string(description.as_str()),
        prompt_prefix: trimmed_string(prompt_prefix.as_str()),
        mode: llm_mode,
    };
    match form_mode {
        CommandFormMode::Create => {
            app.custom_templates.push(template);
            assert(app.custom_templates@.drop_last() =~= old(app).custom_templates@);
            true
        },
        CommandFormMode::Update { original_name: Some(orig) } => {
            let orig_lower = to_lowercase(orig.as_str());
            let mut i: usize = 0;
            while i < app.custom_templates.len()
                invariant
                    i <= app.custom_templates@.len(),
                    app.custom_templates == old(app).custom_templates,
                    *app == *old(app),
                    orig_lower@ == lowercase(orig@),
                    forall|j: int|
                        0 <= j < i ==> lowercase(#[trigger] app.custom_templates@[j].name@)
                            != lowercase(orig@),
                decreases app.custom_templates@.len() - i,
            {
                let lower = to_lowercase(app.custom_templates[i].name.as_str());
                if same_text(lower.as_str(), orig_lower.as_str()) {
                    let ghost ts = old(app).custom_templates@;
                    assert(0 <= i < ts.len() && lowercase(ts[i as int].name@) == lowercase(orig@));
                    let ghost k = first_named(ts, orig@)->0;
                    assert(k == i) by {
                        if k < i {
                            assert(lowercase(ts[k].name@) != lowercase(orig@));
                        }
                        if k > i {
                            assert(lowercase(ts[i as int].name@) != lowercase(orig@));
                        }
                    }
                    app.custom_templates.set(i, template);
                    return true;
                }
                i = i + 1;
            }
            true
        },
        CommandFormMode::Update { original_name: None } => false,
    }
}

/// How a form's update mode is recorded.
pub enum FormModeView {
    Create,
    Update(Option<Seq<char>>),
}

/// What a command form holds.
pub struct FormView {
    pub mode: FormModeView,
    pub name: Seq<char>,
    pub description: Seq<char>,
    pub prompt: Seq<char>,
    pub llm_mode: Seq<char>,
    pub focused: CommandFormField,
    pub error: Option<Seq<char>>,
    pub phase: CommandFormPhase,
    pub selected_index: usize,
}

impl View for CommandFormState {
    type V = FormView;

    open spec fn view(&self) -> FormView {
        FormView {
            mode: match self.form_mode {
                CommandFormMode::Create => FormModeView::Create,
                CommandFormMode::Update { original_name } => FormModeView::Update(
                    result_view(original_name),
                ),
            },
            name: self.name@,
            description: self.description@,
            prompt: self.prompt_prefix@,
            llm_mode: self.llm_mode@,
            focused: self.focused_field,
            error: result_view(self.error),
            phase: self.phase,
            selected_index: self.selected_index,
        }
    }
}

/// What a key does to the form: leave it open in a new state, close it, or save it.
pub enum FormOutcome {
    Stay(FormView),
    Close,
    Save,
}

/// The other mode: "Ask" becomes "Build", anything else becomes "Ask".
pub open spec fn toggled(mode: Seq<char>) -> Seq<char> {
    if mode == "Ask"@ {
        "Build"@
    } else {
        "Ask"@
    }
}

/// Field after `f` in Tab order.
pub open spec fn next_field(f: CommandFormField) -> CommandFormField {
    match f {
        CommandFormField::Name => CommandFormField::Description,
        CommandFormField::Description => CommandFormField::Prompt,
        CommandFormField::Prompt => CommandFormField::Mode,
        CommandFormField::Mode => CommandFormField::Name,
    }
}

/// Field before `f` in Tab order.
pub open spec fn prev_field(f: CommandFormField) -> CommandFormField {
    match f {
        CommandFormField::Name => CommandFormField::Mode,
        CommandFormField::Description => CommandFormField::Name,
        CommandFormField::Prompt => CommandFormField::Description,
        CommandFormField::Mode => CommandFormField::Prompt,
    }
}

/// `s` without its last character, if it has one.
pub open spec fn backspaced(s: Seq<char>) -> Seq<char> {
    if s.len() > 0 {
        s.drop_last()
    } else {
        s
    }
}

/// The form after typing `c` into its focused field (error cleared); in the mode field a
/// space or tab switches the mode.
pub open spec fn typed(v: FormView, c: char) -> FormView {
    let v1 = FormView { error: None, ..v };
    match v.focused {
        CommandFormField::Name => FormView { name: v.name.push(c), ..v1 },
        CommandFormField::Description => FormView { description: v.description.push(c), ..v1 },
        CommandFormField::Prompt => FormView { prompt: v.prompt.push(c), ..v1 },
        CommandFormField::Mode => if c == ' ' || c == '\t' {
            FormView { llm_mode: toggled(v.llm_mode), ..v1 }
        } else {
            v1
        },
    }
}

/// The form after Backspace: the focused text field loses its last character (error cleared).
pub open spec fn erased(v: FormView) -> FormView {
    let v1 = FormView { error: None, ..v };
    match v.focused {
        CommandFormField::Name => FormView { name: backspaced(v.name), ..v1 },
        CommandFormField::Description => FormView { description: backspaced(v.description), ..v1 },
        CommandFormField::Prompt => FormView { prompt: backspaced(v.prompt), ..v1 },
        CommandFormField::Mode => v1,
    }
}

/// What a key does to a command form `v`, given the templates and the form's validation
/// error `err`. Choosing a command (Enter in the list) loads its fields for editing;
/// Enter in the form saves it when it is valid, or shows the error.
pub open spec fn form_outcome(
    v: FormView,
    templates: Seq<CustomTemplate>,
    code: KeyCode,
    mods: KeyModifiers,
    err: Option<Seq<char>>,
) -> FormOutcome {
    match v.phase {
        CommandFormPhase::SelectCommand => {
            let len = templates.len();
            if len == 0 {
                FormOutcome::Close
            } else {
                match code {
                    KeyCode::Esc => FormOutcome::Close,
                    KeyCode::Up => {
                        let i = if v.selected_index == 0 {
                            0
                        } else {
                            v.selected_index - 1
                        };
                        FormOutcome::Stay(
                            FormView {
                                selected_index: if i >= len {
                                    (len - 1) as usize
                                } else {
                                    i as usize
                                },
                                ..v
                            },
                        )
                    },
                    KeyCode::Down => FormOutcome::Stay(
                        FormView {
                            selected_index: vstd::math::min(v.selected_index + 1, len - 1) as usize,
                            ..v
                        },
                    ),
                    KeyCode::Enter => {
                        let t = templates[v.selected_index as int];
                        FormOutcome::Stay(
                            FormView {
                                phase: CommandFormPhase::EditForm,
                                name: t.name@,
                                description: t.description@,
                                prompt: t.prompt_prefix@,
                                llm_mode: t.mode@,
                                focused: CommandFormField::Name,
                                error: None,
                                mode: match v.mode {
                                    FormModeView::Update(_) => FormModeView::Update(Some(t.name@)),
                                    FormModeView::Create => FormModeView::Create,
                                },
                                ..v
                            },
                        )
                    },
                    _ => FormOutcome::Stay(v),
                }
            }
        },
        CommandFormPhase::EditForm => match code {
            KeyCode::Esc => match v.mode {
                FormModeView::Update(_) => FormOutcome::Stay(
                    FormView {
                        phase: CommandFormPhase::SelectCommand,
                        name: Seq::empty(),
                        description: Seq::empty(),
                        prompt: Seq::empty(),
                        ..v
                    },
                ),
                FormModeView::Create => FormOutcome::Close,
            },
            KeyCode::Tab => FormOutcome::Stay(
                FormView { focused: next_field(v.focused), error: None, ..v },
            ),
            KeyCode::BackTab => FormOutcome::Stay(
                FormView { focused: prev_field(v.focused), error: None, ..v },
            ),
            KeyCode::Enter => if v.focused == CommandFormField::Prompt && (mods.shift || mods.alt) {
                FormOutcome::Stay(FormView { prompt: v.prompt.push('\n'), ..v })
            } else if v.focused == CommandFormField::Mode {
                FormOutcome::Stay(FormView { llm_mode: toggled(v.llm_mode), ..v })
            } else {
                match err {
                    Some(e) => FormOutcome::Stay(FormView { error: Some(e), ..v }),
                    None => FormOutcome::Save,
                }
            },
            KeyCode::Backspace => FormOutcome::Stay(erased(v)),
            KeyCode::Up | KeyCode::Down => if v.focused == CommandFormField::Mode {
                FormOutcome::Stay(FormView { llm_mode: toggled(v.llm_mode), ..v })
            } else {
                FormOutcome::Stay(v)
            },
            KeyCode::Char(c) => if mods.alt {
                FormOutcome::Stay(v)
            } else {
                FormOutcome::Stay(typed(v, c))
            },
            _ => FormOutcome::Stay(v),
        },
    }
}

fn toggle_mode(mode: &mut String)
    ensures
        final(mode)@ == toggled(old(mode)@),
{
    if same_text(mode.as_str(), "Ask") {
        *mode = "Build".to_string();
    } else {
        *mode = "Ask".to_string();
    }
}

fn backspace(s: &mut String)
    ensures
        final(s)@ == backspaced(old(s)@),
{
    let _ = pop_char(s);
}

/// Handle a key in the create/update command form. Returns whether the custom templates
/// changed and are to be written back.
pub fn handle_command_form_popup(
    key_code: KeyCode,
    key_modifiers: KeyModifiers,
    app: &mut App,
    builtin_names: &[&str],
) -> (r: (HandleResult, bool))
    requires
        old(app).command_form_popup matches Some(s) ==> (s.phase == CommandFormPhase::SelectCommand
            && old(app).custom_templates@.len() > 0 ==> (key_code == KeyCode::Enter
            ==> s.selected_index < old(app).custom_templates@.len()) && (key_code == KeyCode::Down
            ==> s.selected_index < usize::MAX)),
    ensures
        r.0 == HandleResult::Continue,
        match old(app).command_form_popup {
            None => *final(app) == *old(app) && !r.1,
            Some(s) => match form_outcome(
                s@,
                old(app).custom_templates@,
                key_code,
                key_modifiers,
                form_error(
                    s,
                    template_names(old(app).custom_templates@),
                    builtin_names@.map_values(|b: &str| b@),
                ),
            ) {
                FormOutcome::Stay(v) => (final(app).command_form_popup matches Some(t) && t@ == v)
                    && *final(app) == (App {
                    command_form_popup: final(app).command_form_popup,
                    ..*old(app)
                }) && !r.1,
                FormOutcome::Close => *final(app) == (App {
                    command_form_popup: None,
                    ..*old(app)
                }) && !r.1,
                FormOutcome::Save => final(app).command_form_popup is None && templates_saved(
                    old(app).custom_templates@,
                    final(app).custom_templates@,
                    s,
                ) && *final(app) == (App {
                    command_form_popup: None,
                    custom_templates: final(app).custom_templates,
                    ..*old(app)
                }) && r.1 == !(s.form_mode matches CommandFormMode::Update { original_name: None }),
            },
        },
{
    let mut state = match app.command_form_popup.take() {
        Some(s) => s,
        None => {
            return (HandleResult::Continue, false);
        },
    };
    match state.phase {
        CommandFormPhase::SelectCommand => {
            let len = app.custom_templates.len();
            if len == 0 {
                return (HandleResult::Continue, false);
            }
            match key_code {
                KeyCode::Esc => {
                    return (HandleResult::Continue, false);
                },
                KeyCode::Up => {
                    state.selected_index = state.selected_index.saturating_sub(1);
                    if state.selected_index >= len {
                        state.selected_index = len - 1;
                    }
                },
                KeyCode::Down => {
                    let next = state.selected_index + 1;
                    state.selected_index = if next < len - 1 {
                        next
                    } else {
                        len - 1
                    };
                },
                KeyCode::Enter => {
                    let template = app.custom_templates[state.selected_index].duplicate();
                    let original = template.name.clone();
                    state.phase = CommandFormPhase::EditForm;
                    state.name = template.name;
                    state.description = template.description;
                    state.prompt_prefix = template.prompt_prefix;
                    state.llm_mode = template.mode;
                    state.focused_field = CommandFormField::Name;
                    state.error = None;
                    if let CommandFormMode::Update { .. } = state.form_mode {
                        state.form_mode = CommandFormMode::Update { original_name: Some(original) };
                    }
                },
                _ => {},
            }
        },
        CommandFormPhase::EditForm => match key_code {
            KeyCode::Esc => {
                if let CommandFormMode::Update { .. } = state.form_mode {
                    state.phase = CommandFormPhase::SelectCommand;
                    state.name = String::new();
                    state.description = String::new();
                    state.prompt_prefix = String::new();
                } else {
                    return (HandleResult::Continue, false);
                }
            },
            KeyCode::Tab => {
                state.focused_field = match state.focused_field {
                    CommandFormField::Name => CommandFormField::Description,
                    CommandFormField::Description => CommandFormField::Prompt,
                    CommandFormField::Prompt => CommandFormField::Mode,
                    CommandFormField::Mode => CommandFormField::Name,
                };
                state.error = None;
            },
            KeyCode::BackTab => {
                state.focused_field = match state.focused_field {
                    CommandFormField::Name => CommandFormField::Mode,
                    CommandFormField::Description => CommandFormField::Name,
                    CommandFormField::Prompt => CommandFormField::Description,
                    CommandFormField::Mode => CommandFormField::Prompt,
                };
                state.error = None;
            },
            KeyCode::Enter => {
                if state.focused_field == CommandFormField::Prompt && (key_modifiers.shift
                    || key_modifiers.alt) {
                    push_char(&mut state.prompt_prefix, '\n');
                } else if state.focused_field == CommandFormField::Mode {
                    toggle_mode(&mut state.llm_mode);
                } else {
                    match validate_form(&state, app.custom_templates.as_slice(), builtin_names) {
                        Some(e) => {
                            state.error = Some(e);
                        },
                        None => {
                            let persist = save_command(app, state);
                            return (HandleResult::Continue, persist);
                        },
                    }
                }
            },
            KeyCode::Backspace => {
                state.error = None;
                match state.focused_field {
                    CommandFormField::Name => backspace(&mut state.name),
                    CommandFormField::Description => backspace(&mut state.description),
                    CommandFormField::Prompt => backspace(&mut state.prompt_prefix),
                    CommandFormField::Mode => {},
                }
            },
            KeyCode::Up | KeyCode::Down => {
                if state.focused_field == CommandFormField::Mode {
                    toggle_mode(&mut state.llm_mode);
                }
            },
            KeyCode::Char(c) => {
                if !key_modifiers.alt {
                    state.error = None;
                    match state.focused_field {
                        CommandFormField::Name => push_char(&mut state.name, c),
                        CommandFormField::Description => push_char(&mut state.description, c),
                        CommandFormField::Prompt => push_char(&mut state.prompt_prefix, c),
                        CommandFormField::Mode => {
                            if c == ' ' || c == '\t' {
                                toggle_mode(&mut state.llm_mode);
                            }
                        },
                    }
                }
            },
            _ => {},
        },
    }
    app.command_form_popup = Some(state);
    (HandleResult::Continue, false)
}

/// `after` is `before` with the form that creates a command open, all fields empty.
pub open spec fn opened_create_popup(before: App, after: App) -> bool {
    &&& after.command_form_popup matches Some(f) && f@ == (FormView {
        mode: FormModeView::Create,
        name: Seq::empty(),
        description: Seq::empty(),
        prompt: Seq::empty(),
        llm_mode: "Build"@,
        focused: CommandFormField::Name,
        error: None,
        phase: CommandFormPhase::EditForm,
        selected_index: 0,
    })
    &&& after == (App { command_form_popup: after.command_form_popup, ..before })
}

/// `after` is `before` with the form that updates a command open at the choice of the
/// command; without custom commands nothing changes.
pub open spec fn opened_update_popup(before: App, after: App) -> bool {
    if before.custom_templates@.len() == 0 {
        after == before
    } else {
        &&& after.command_form_popup matches Some(f) && f@ == (FormView {
            mode: FormModeView::Update(None),
            name: Seq::empty(),
            description: Seq::empty(),
            prompt: Seq::empty(),
            llm_mode: "Build"@,
            focused: CommandFormField::Name,
            error: None,
            phase: CommandFormPhase::SelectCommand,
            selected_index: 0,
        })
        &&& after == (App { command_form_popup: after.command_form_popup, ..before })
    }
}

impl App {
    /// Open the form that creates a command.
    pub fn open_create_command_popup(&mut self)
        ensures
            opened_create_popup(*old(self), *final(self)),
    {
        self.command_form_popup = Some(
            CommandFormState {
                form_mode: CommandFormMode::Create,
                name: String::new(),
                description: String::new(),
                prompt_prefix: String::new(),
                llm_mode: "Build".to_string(),
                focused_field: CommandFormField::Name,
                error: None,
                phase: CommandFormPhase::EditForm,
                selected_index: 0,
            },
        );
    }

    /// Open the form that updates a command, starting with the choice of the command;
    /// nothing happens without custom commands.
    pub fn open_update_command_popup(&mut self)
        ensures
            opened_update_popup(*old(self), *final(self)),
    {
        if self.custom_templates.len() == 0 {
            return;
        }
        self.command_form_popup = Some(
            CommandFormState {
                form_mode: CommandFormMode::Update { original_name: None },
                name: String::new(),
                description: String::new(),
                prompt_prefix: String::new(),
                llm_mode: "Build".to_string(),
                focused_field: CommandFormField::Name,
                error: None,
                phase: CommandFormPhase::SelectCommand,
                selected_index: 0,
            },
        );
    }
}

/// Record how writing back the custom commands after the form went: success clears the
/// templates error, a failure shows its message; nothing else changes.
pub fn form_templates_written(app: &mut App, result: Result<(), String>)
    ensures
        *final(app) == (App {
            templates_load_error: match result {
                Ok(_) => None,
                Err(e) => Some(e),
            },
            ..*old(app)
        }),
{
    match result {
        Ok(()) => app.templates_load_error = None,
        Err(e) => app.templates_load_error = Some(e),
    }
}

} // verus!
