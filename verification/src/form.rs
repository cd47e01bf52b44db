//! The profile form: editable fields with a byte cursor, and the form that
//! turns a profile into fields and back.
use vstd::prelude::*;
use crate::profile::{
    lemma_provider_labels, provider_label, provider_labels, provider_of_label, provider_type_label,
    AuthType, ProfileConfig, ProviderType,
};
use crate::text::{
    all_ascii, byte_len, byte_offset, char_index_at, decimal, decimal_text, lemma_ascii_offsets,
    lemma_boundary_within, lemma_char_index_at, lemma_offset_is_boundary,
    lemma_offset_strictly_increasing, lemma_offset_zero_and_end, lemma_parse_decimal,
    on_char_boundary, parse_u32, parse_u32_spec, string_insert, string_remove,
};

verus! {

broadcast use vstd::slice::group_slice_axioms;

/// Index of the field that holds the profile's name.
pub const FIELD_NAME: usize = 0;
/// Index of the field that selects the provider type.
pub const FIELD_PROVIDER_TYPE: usize = 1;
/// Index of the field that holds the base URL.
pub const FIELD_BASE_URL: usize = 2;
/// Index of the field that holds the API key.
pub const FIELD_API_KEY: usize = 3;
/// Index of the field that holds the default model.
pub const FIELD_MODEL: usize = 4;
/// Index of the field that switches the profile on and off.
pub const FIELD_ENABLED: usize = 5;
/// Index of the field that holds the priority.
pub const FIELD_PRIORITY: usize = 6;

/// How a field is edited.
#[derive(Debug, Clone, PartialEq)]
pub enum FieldKind {
    Text,
    Password,
    Select(Vec<String>),
    Bool,
    Number,
}

/// A field kind with its options as character sequences.
pub enum KindView {
    Text,
    Password,
    Select(Seq<Seq<char>>),
    Bool,
    Number,
}

impl View for FieldKind {
    type V = KindView;

    open spec fn view(&self) -> KindView {
        match self {
            FieldKind::Text => KindView::Text,
            FieldKind::Password => KindView::Password,
            FieldKind::Select(options) => KindView::Select(options@.map_values(|o: String| o@)),
            FieldKind::Bool => KindView::Bool,
            FieldKind::Number => KindView::Number,
        }
    }
}

/// One field of the form.
#[derive(Debug, Clone)]
pub struct FormField {
    pub label: &'static str,
    pub kind: FieldKind,
    pub value: String,
    /// Byte offset of the cursor in `value`.
    pub cursor_pos: usize,
}

/// A field as plain values: its label, kind, text and byte cursor.
pub struct FormFieldView {
    pub label: Seq<char>,
    pub kind: KindView,
    pub value: Seq<char>,
    pub cursor: int,
}

impl View for FormField {
    type V = FormFieldView;

    open spec fn view(&self) -> FormFieldView {
        FormFieldView {
            label: self.label@,
            kind: self.kind@,
            value: self.value@,
            cursor: self.cursor_pos as int,
        }
    }
}

/// The text of a switch field after it is toggled.
pub open spec fn toggled(value: Seq<char>) -> Seq<char> {
    if value == "true"@ {
        "false"@
    } else {
        "true"@
    }
}

/// The text under which a switch field shows a boolean.
pub open spec fn bool_text(b: bool) -> Seq<char> {
    if b {
        "true"@
    } else {
        "false"@
    }
}

/// `c` is accepted by a number field.
pub open spec fn is_ascii_digit(c: char) -> bool {
    '0' <= c <= '9'
}

impl FormFieldView {
    pub open spec fn with_value(self, value: Seq<char>) -> FormFieldView {
        FormFieldView { value, ..self }
    }

    pub open spec fn with_cursor(self, cursor: int) -> FormFieldView {
        FormFieldView { cursor, ..self }
    }

    /// The character index at which the cursor stands.
    pub open spec fn cursor_index(self) -> int {
        char_index_at(self.value, self.cursor)
    }

    /// `c` typed at the cursor, which moves one byte on.
    pub open spec fn typed(self, c: char) -> FormFieldView {
        let k = self.cursor_index();
        FormFieldView {
            value: self.value.take(k).push(c) + self.value.skip(k),
            cursor: self.cursor + 1,
            ..self
        }
    }

    /// The option after (`forward`) or before the current one, when the
    /// current text is among the options; the first match counts.
    pub open spec fn cycled(self, options: Seq<Seq<char>>, forward: bool) -> FormFieldView {
        match options.index_of_first(self.value) {
            Some(i) => {
                let n = options.len() as int;
                let next = if forward {
                    (i + 1) % n
                } else {
                    (i + n - 1) % n
                };
                self.with_value(options[next])
            },
            None => self,
        }
    }

    /// The field after the key `c` is pressed on it.
    pub open spec fn after_insert(self, c: char) -> FormFieldView {
        match self.kind {
            KindView::Number => if is_ascii_digit(c) {
                self.typed(c)
            } else {
                self
            },
            KindView::Bool => self.with_value(toggled(self.value)),
            KindView::Select(options) => self.cycled(options, true),
            _ => self.typed(c),
        }
    }

    /// Pressing `c` does not make `String::insert` panic: text is typed only
    /// at a character boundary.
    pub open spec fn can_insert(self, c: char) -> bool {
        match self.kind {
            KindView::Number => is_ascii_digit(c) ==> on_char_boundary(self.value, self.cursor),
            KindView::Bool => true,
            KindView::Select(_) => true,
            _ => on_char_boundary(self.value, self.cursor),
        }
    }

    /// The field after backspace: the cursor steps one byte back and the
    /// character that starts there goes.
    pub open spec fn after_delete(self) -> FormFieldView {
        if self.cursor > 0 {
            let f = self.with_cursor(self.cursor - 1);
            f.with_value(self.value.remove(f.cursor_index()))
        } else {
            self
        }
    }

    /// Backspace does not make `String::remove` panic: the byte before the
    /// cursor starts a character.
    pub open spec fn can_delete(self) -> bool {
        self.cursor > 0 ==> (on_char_boundary(self.value, self.cursor - 1) && self.cursor - 1
            < byte_len(self.value))
    }

    pub open spec fn after_move_left(self) -> FormFieldView {
        if self.cursor > 0 {
            self.with_cursor(self.cursor - 1)
        } else {
            self
        }
    }

    pub open spec fn after_move_right(self) -> FormFieldView {
        if self.cursor < byte_len(self.value) {
            self.with_cursor(self.cursor + 1)
        } else {
            self
        }
    }

    /// The field after the selection is cycled.
    pub open spec fn after_cycle(self, forward: bool) -> FormFieldView {
        match self.kind {
            KindView::Select(options) => self.cycled(options, forward),
            KindView::Bool => self.with_value(toggled(self.value)),
            _ => self,
        }
    }
}

/// The number of bytes of `s`.
pub fn byte_length(s: &String) -> (n: usize)
    ensures
        n == byte_len(s@),
{
    s.as_str().as_bytes().len()
}

/// The `String` holds exactly the text `lit`.
fn text_is(s: &String, lit: &str) -> (same: bool)
    ensures
        same == (s@ == lit@),
{
    let t = lit.to_owned();
    s.eq(&t)
}

/// The text of a switch field after it is toggled, as a new `String`.
fn toggled_text(value: &String) -> (t: String)
    ensures
        t@ == toggled(value@),
{
    if text_is(value, "true") {
        "false".to_owned()
    } else {
        "true".to_owned()
    }
}

/// Where `value` first occurs among `options`.
fn position_of(options: &Vec<String>, value: &String) -> (pos: Option<usize>)
    ensures
        match pos {
            Some(i) => options@.map_values(|o: String| o@).index_of_first(value@) == Some(i as int)
                && i < options@.len(),
            None => options@.map_values(|o: String| o@).index_of_first(value@) is None,
        },
{
    let ghost opts = options@.map_values(|o: String| o@);
    proof {
        opts.index_of_first_ensures(value@);
    }
    let mut i: usize = 0;
    while i < options.len()
        invariant
            i <= options.len(),
            opts == options@.map_values(|o: String| o@),
            forall|j: int| 0 <= j < i ==> opts[j] != value@,
            match opts.index_of_first(value@) {
                Some(index) => {
                    &&& 0 <= index < opts.len()
                    &&& opts[index] == value@
                    &&& forall|j: int| 0 <= j < index < opts.len() ==> opts[j] != value@
                },
                None => !opts.contains(value@),
            },
        decreases options.len() - i,
    {
        if options[i].eq(value) {
            proof {
                assert(opts[i as int] == value@);
                assert(opts.contains(value@));
                let index = opts.index_of_first(value@).unwrap();
                if index < i {
                } else if index > i {
                }
            }
            return Some(i);
        }
        i = i + 1;
    }
    proof {
        if opts.contains(value@) {
            let j = choose|j: int| 0 <= j < opts.len() && opts[j] == value@;
            assert(opts[j] != value@);
        }
    }
    None
}

impl FormField {
    /// A field holding `value`, with the cursor at its end.
    pub fn new(label: &'static str, kind: FieldKind, value: String) -> (f: Self)
        ensures
            f@ == (FormFieldView {
                label: label@,
                kind: kind@,
                value: value@,
                cursor: byte_len(value@) as int,
            }),
    {
        let cursor_pos = byte_length(&value);
        FormField { label, kind, value, cursor_pos }
    }

    /// Handles the key `c`: a text field takes it at the cursor, a number field
    /// takes it only if it is a digit, a switch toggles and a selection moves
    /// to the next option.
    pub fn insert_char(&mut self, c: char)
        requires
            old(self)@.can_insert(c),
        ensures
            final(self)@ == old(self)@.after_insert(c),
    {
        match &self.kind {
            FieldKind::Number => {
                let code: u32 = c as u32;
                if 48 <= code && code <= 57 {
                    proof {
                        lemma_char_index_at(self.value@, self.cursor_pos as int);
                        lemma_boundary_within(self.value@, self.cursor_pos as int);
                    }
                    string_insert(&mut self.value, self.cursor_pos, c);
                    self.step_past_inserted(Ghost(old(self).value@), c);
                }
            },
            FieldKind::Bool => {
                self.value = toggled_text(&self.value);
            },
            FieldKind::Select(options) => {
                if let Some(idx) = position_of(options, &self.value) {
                    let n = options.len();
                    let next = (idx + 1) % n;
                    assert(options@.map_values(|o: String| o@)[next as int] == options@[next as int]@);
                    self.value = options[next].clone();
                }
            },
            _ => {
                proof {
                    lemma_char_index_at(self.value@, self.cursor_pos as int);
                    lemma_boundary_within(self.value@, self.cursor_pos as int);
                }
                string_insert(&mut self.value, self.cursor_pos, c);
                self.step_past_inserted(Ghost(old(self).value@), c);
            },
        }
    }

    /// Moves the cursor past a character just inserted at it.
    fn step_past_inserted(&mut self, Ghost(before): Ghost<Seq<char>>, c: char)
        requires
            on_char_boundary(before, old(self).cursor_pos as int),
            old(self).value@ == before.take(char_index_at(before, old(self).cursor_pos as int)).push(
                c,
            ) + before.skip(char_index_at(before, old(self).cursor_pos as int)),
        ensures
            final(self).cursor_pos == old(self).cursor_pos + 1,
            final(self).value == old(self).value,
            final(self).label == old(self).label,
            final(self).kind == old(self).kind,
    {
        // The text now holds a character after the cursor, so the cursor is
        // below its length, which fits in a `usize`.
        let new_len = byte_length(&self.value);
        proof {
            let k = char_index_at(before, self.cursor_pos as int);
            lemma_char_index_at(before, self.cursor_pos as int);
            let after = self.value@;
            assert(after.take(k) =~= before.take(k));
            lemma_offset_zero_and_end(after);
            lemma_offset_strictly_increasing(after, k, after.len() as int);
            assert(self.cursor_pos < new_len);
        }
        self.cursor_pos = self.cursor_pos + 1;
    }

    /// Whether the key `c` can be handled here: text is typed only at a
    /// character boundary.
    pub fn can_insert_char(&self, c: char) -> (ok: bool)
        ensures
            ok == self@.can_insert(c),
    {
        match &self.kind {
            FieldKind::Bool => true,
            FieldKind::Select(_) => true,
            FieldKind::Number => {
                let code: u32 = c as u32;
                !(48 <= code && code <= 57) || self.value.as_str().is_char_boundary(self.cursor_pos)
            },
            _ => self.value.as_str().is_char_boundary(self.cursor_pos),
        }
    }

    /// Whether backspace can be handled here: the byte before the cursor
    /// starts a character.
    pub fn can_delete_char(&self) -> (ok: bool)
        ensures
            ok == self@.can_delete(),
    {
        if self.cursor_pos == 0 {
            true
        } else {
            let before = self.cursor_pos - 1;
            before < byte_length(&self.value) && self.value.as_str().is_char_boundary(before)
        }
    }

    /// Backspace: removes the character before the cursor.
    pub fn delete_char(&mut self)
        requires
            old(self)@.can_delete(),
        ensures
            final(self)@ == old(self)@.after_delete(),
    {
        if self.cursor_pos > 0 {
            self.cursor_pos = self.cursor_pos - 1;
            string_remove(&mut self.value, self.cursor_pos);
        }
    }

    /// Moves the cursor one byte back, staying at the start.
    pub fn move_cursor_left(&mut self)
        ensures
            final(self)@ == old(self)@.after_move_left(),
    {
        self.cursor_pos = self.cursor_pos.saturating_sub(1);
    }

    /// Moves the cursor one byte on, staying at the end.
    pub fn move_cursor_right(&mut self)
        ensures
            final(self)@ == old(self)@.after_move_right(),
    {
        if self.cursor_pos < byte_length(&self.value) {
            self.cursor_pos = self.cursor_pos + 1;
        }
    }

    /// Moves a selection to the next (`forward`) or previous option, or toggles a switch.
    pub fn cycle_select(&mut self, forward: bool)
        ensures
            final(self)@ == old(self)@.after_cycle(forward),
    {
        match &self.kind {
            FieldKind::Select(options) => {
                if let Some(idx) = position_of(options, &self.value) {
                    let n = options.len();
                    let next = if forward {
                        (idx + 1) % n
                    } else if idx == 0 {
                        n - 1
                    } else {
                        idx - 1
                    };
                    proof {
                        if !forward {
                            let ni = n as int;
                            let ii = idx as int;
                            if idx == 0 {
                                assert((ii + ni - 1) % ni == ni - 1) by (nonlinear_arith)
                                    requires ii == 0, ni > 0;
                            } else {
                                assert((ii + ni - 1) % ni == ii - 1) by (nonlinear_arith)
                                    requires 0 < ii < ni;
                            }
                        }
                    }
                    assert(options@.map_values(|o: String| o@)[next as int] == options@[next as int]@);
                    self.value = options[next].clone();
                }
            },
            FieldKind::Bool => {
                self.value = toggled_text(&self.value);
            },
            _ => {},
        }
    }
}


/// The edit form for one profile.
#[derive(Debug, Clone)]
pub struct ProfileForm {
    pub fields: Vec<FormField>,
    pub focused_field: usize,
    pub is_edit: bool,
    pub original_name: Option<String>,
}

/// A fresh field with `value`, its cursor at the end.
pub open spec fn fresh_field(label: Seq<char>, kind: KindView, value: Seq<char>) -> FormFieldView {
    FormFieldView { label, kind, value, cursor: byte_len(value) as int }
}

/// The seven fields of a profile form, holding the given texts.
pub open spec fn profile_fields(
    name: Seq<char>,
    provider: Seq<char>,
    base_url: Seq<char>,
    api_key: Seq<char>,
    model: Seq<char>,
    enabled: Seq<char>,
    priority: Seq<char>,
) -> Seq<FormFieldView> {
    seq![
        fresh_field("Name"@, KindView::Text, name),
        fresh_field("Provider Type"@, KindView::Select(provider_labels()), provider),
        fresh_field("Base URL"@, KindView::Text, base_url),
        fresh_field("API Key"@, KindView::Password, api_key),
        fresh_field("Default Model"@, KindView::Text, model),
        fresh_field("Enabled"@, KindView::Bool, enabled),
        fresh_field("Priority"@, KindView::Number, priority),
    ]
}

/// The profile `c` is what the form fields `fields` describe: the texts are
/// taken as they stand, an unknown provider label means an OpenAI-compatible
/// provider, a priority that does not read as a `u32` means 100, only the text
/// `true` enables, and everything else keeps its default.
pub open spec fn is_config_of(c: ProfileConfig, fields: Seq<FormFieldView>) -> bool {
    &&& c.name@ == fields[FIELD_NAME as int].value
    &&& c.provider_type == provider_of_label(fields[FIELD_PROVIDER_TYPE as int].value)
    &&& c.base_url@ == fields[FIELD_BASE_URL as int].value
    &&& c.api_key@ == fields[FIELD_API_KEY as int].value
    &&& c.default_model@ == fields[FIELD_MODEL as int].value
    &&& c.priority == match parse_u32_spec(fields[FIELD_PRIORITY as int].value) {
        Some(n) => n,
        None => 100u32,
    }
    &&& c.enabled == (fields[FIELD_ENABLED as int].value == "true"@)
    &&& c.api_key_keyring is None
    &&& c.auth_type == AuthType::ApiKey
}

impl ProfileForm {
    pub open spec fn field_views(self) -> Seq<FormFieldView> {
        self.fields@.map_values(|f: FormField| f@)
    }

    /// The form shows profile `p` for editing.
    pub open spec fn shows_profile(self, p: ProfileConfig) -> bool {
        &&& self.field_views() == profile_fields(
            p.name@,
            provider_label(p.provider_type),
            p.base_url@,
            p.api_key@,
            p.default_model@,
            bool_text(p.enabled),
            decimal(p.priority as nat),
        )
        &&& self.focused_field == 0
        &&& self.is_edit
        &&& self.original_name matches Some(n) && n@ == p.name@
    }

    /// The form is blank, ready for a new profile.
    pub open spec fn is_blank(self) -> bool {
        &&& self.field_views() == profile_fields(
            Seq::empty(),
            "OpenAICompatible"@,
            Seq::empty(),
            Seq::empty(),
            Seq::empty(),
            "true"@,
            "100"@,
        )
        &&& self.focused_field == 0
        &&& !self.is_edit
        &&& self.original_name is None
    }

    fn provider_select() -> (kind: FieldKind)
        ensures
            kind@ == KindView::Select(provider_labels()),
    {
        let mut options: Vec<String> = Vec::new();
        options.push("DirectAnthropic".to_owned());
        options.push("OpenAICompatible".to_owned());
        options.push("OpenAIResponses".to_owned());
        assert(options@.map_values(|o: String| o@) =~= provider_labels());
        FieldKind::Select(options)
    }

    fn with_values(
        name: String,
        provider: String,
        base_url: String,
        api_key: String,
        model: String,
        enabled: String,
        priority: String,
    ) -> (fields: Vec<FormField>)
        ensures
            fields.len() == 7,
            fields@.map_values(|f: FormField| f@) == profile_fields(
                name@,
                provider@,
                base_url@,
                api_key@,
                model@,
                enabled@,
                priority@,
            ),
    {
        let ghost expected = profile_fields(
            name@,
            provider@,
            base_url@,
            api_key@,
            model@,
            enabled@,
            priority@,
        );
        let mut fields: Vec<FormField> = Vec::new();
        fields.push(FormField::new("Name", FieldKind::Text, name));
        fields.push(FormField::new("Provider Type", Self::provider_select(), provider));
        fields.push(FormField::new("Base URL", FieldKind::Text, base_url));
        fields.push(FormField::new("API Key", FieldKind::Password, api_key));
        fields.push(FormField::new("Default Model", FieldKind::Text, model));
        fields.push(FormField::new("Enabled", FieldKind::Bool, enabled));
        fields.push(FormField::new("Priority", FieldKind::Number, priority));
        assert(fields@.map_values(|f: FormField| f@) =~= expected);
        fields
    }

    /// A blank form for adding a profile.
    pub fn new_blank() -> (form: Self)
        ensures
            form.is_blank(),
            form.fields.len() == 7,
    {
        ProfileForm {
            fields: Self::with_values(
                String::new(),
                "OpenAICompatible".to_owned(),
                String::new(),
                String::new(),
                String::new(),
                "true".to_owned(),
                "100".to_owned(),
            ),
            focused_field: 0,
            is_edit: false,
            original_name: None,
        }
    }

    /// A form for editing profile `p`.
    pub fn from_profile(p: &ProfileConfig) -> (form: Self)
        ensures
            form.shows_profile(*p),
            form.fields.len() == 7,
    {
        let enabled = if p.enabled {
            "true".to_owned()
        } else {
            "false".to_owned()
        };
        ProfileForm {
            fields: Self::with_values(
                p.name.clone(),
                provider_type_label(p.provider_type),
                p.base_url.clone(),
                p.api_key.clone(),
                p.default_model.clone(),
                enabled,
                decimal_text(p.priority as u64),
            ),
            focused_field: 0,
            is_edit: true,
            original_name: Some(p.name.clone()),
        }
    }

    /// The profile that the form describes.
    pub fn to_profile_config(&self) -> (c: ProfileConfig)
        requires
            self.fields.len() >= 7,
        ensures
            is_config_of(c, self.field_views()),
    {
        let selected = &self.fields[FIELD_PROVIDER_TYPE].value;
        let provider_type = if text_is(selected, "DirectAnthropic") {
            ProviderType::DirectAnthropic
        } else if text_is(selected, "OpenAIResponses") {
            ProviderType::OpenAIResponses
        } else {
            ProviderType::OpenAICompatible
        };
        let priority = match parse_u32(self.fields[FIELD_PRIORITY].value.as_str()) {
            Some(n) => n,
            None => 100,
        };
        let defaults = ProfileConfig::default();
        ProfileConfig {
            name: self.fields[FIELD_NAME].value.clone(),
            provider_type,
            base_url: self.fields[FIELD_BASE_URL].value.clone(),
            api_key: self.fields[FIELD_API_KEY].value.clone(),
            default_model: self.fields[FIELD_MODEL].value.clone(),
            priority,
            enabled: text_is(&self.fields[FIELD_ENABLED].value, "true"),
            ..defaults
        }
    }

    /// Moves the focus to the next field, staying on the last one.
    pub fn focus_next(&mut self)
        requires
            old(self).fields.len() > 0,
        ensures
            final(self).fields == old(self).fields,
            final(self).is_edit == old(self).is_edit,
            final(self).original_name == old(self).original_name,
            final(self).focused_field == if old(self).focused_field < old(self).fields.len() - 1 {
                old(self).focused_field + 1
            } else {
                old(self).focused_field as int
            },
    {
        if self.focused_field < self.fields.len() - 1 {
            self.focused_field += 1;
        }
    }

    /// Moves the focus to the previous field, staying on the first one.
    pub fn focus_prev(&mut self)
        ensures
            final(self).fields == old(self).fields,
            final(self).is_edit == old(self).is_edit,
            final(self).original_name == old(self).original_name,
            final(self).focused_field == if old(self).focused_field > 0 {
                old(self).focused_field - 1
            } else {
                0
            },
    {
        self.focused_field = self.focused_field.saturating_sub(1);
    }
}


// ---------------------------------------------------------------------------
// Laws of the form
// ---------------------------------------------------------------------------

/// Backspace right after a character was typed into a text or password field
/// takes that character out again: text and cursor are as they were.
pub proof fn law_backspace_undoes_typing(f: FormFieldView, c: char)
    requires
        f.kind is Text || f.kind is Password,
        f.can_insert(c),
    ensures
        f.after_insert(c).can_delete(),
        f.after_insert(c).after_delete() == f,
{
    let v = f.value;
    let k = f.cursor_index();
    lemma_char_index_at(v, f.cursor);
    let g = f.after_insert(c);
    let w = g.value;
    assert(w == v.take(k).push(c) + v.skip(k));
    assert(w.take(k) =~= v.take(k));
    assert(byte_offset(w, k) == f.cursor);
    lemma_offset_is_boundary(w, k);
    lemma_offset_zero_and_end(w);
    lemma_offset_strictly_increasing(w, k, w.len() as int);
    assert(w.remove(k) =~= v);
}

/// A number field takes exactly the ten digits `0` to `9`. With the cursor at
/// the start of character `k`, a digit goes in before that character and the
/// cursor moves one byte on; any other key leaves the field as it is.
pub proof fn law_number_field_takes_digits(f: FormFieldView, c: char, k: int)
    requires
        f.kind is Number,
        0 <= k <= f.value.len(),
        byte_offset(f.value, k) == f.cursor,
    ensures
        '0' <= c <= '9' ==> {
            &&& f.after_insert(c).value == f.value.take(k) + seq![c] + f.value.skip(k)
            &&& f.after_insert(c).cursor == f.cursor + 1
            &&& f.after_insert(c).label == f.label
            &&& f.after_insert(c).kind == f.kind
        },
        !('0' <= c <= '9') ==> f.after_insert(c) == f,
{
    lemma_offset_is_boundary(f.value, k);
    assert(f.value.take(k).push(c) =~= f.value.take(k) + seq![c]);
}

/// A text or password field takes every key: with the cursor at the start of
/// character `k`, the key goes in before that character and the cursor moves
/// one byte on.
pub proof fn law_text_field_takes_every_key(f: FormFieldView, c: char, k: int)
    requires
        f.kind is Text || f.kind is Password,
        0 <= k <= f.value.len(),
        byte_offset(f.value, k) == f.cursor,
    ensures
        f.after_insert(c).value == f.value.take(k) + seq![c] + f.value.skip(k),
        f.after_insert(c).cursor == f.cursor + 1,
        f.after_insert(c).label == f.label,
        f.after_insert(c).kind == f.kind,
{
    lemma_offset_is_boundary(f.value, k);
    assert(f.value.take(k).push(c) =~= f.value.take(k) + seq![c]);
}

/// Typing into a switch twice gives back its text, when it reads `true` or `false`.
pub proof fn law_switch_toggles_back(f: FormFieldView, c: char, d: char)
    requires
        f.kind is Bool,
        f.value == "true"@ || f.value == "false"@,
    ensures
        f.after_insert(c).after_insert(d) == f,
        f.after_cycle(true).after_cycle(false) == f,
        f.after_insert(c).value != f.value,
{
    reveal_strlit("true");
    reveal_strlit("false");
    assert("true"@.len() != "false"@.len());
}

/// Cycling a selection forward and then back (or back and then forward) gives
/// back the option it was on, when the options are all different.
pub proof fn law_cycle_round_trip(f: FormFieldView, forward: bool)
    requires
        f.kind matches KindView::Select(options) && options.no_duplicates() && options.contains(
            f.value,
        ),
    ensures
        f.after_cycle(forward).after_cycle(!forward) == f,
{
    let options = f.kind->Select_0;
    let n = options.len() as int;
    options.index_of_first_ensures(f.value);
    let i = options.index_of_first(f.value).unwrap();
    let j = if forward {
        (i + 1) % n
    } else {
        (i + n - 1) % n
    };
    assert(0 <= j < n) by (nonlinear_arith)
        requires
            0 <= i < n,
            j == (if forward {
                (i + 1) % n
            } else {
                (i + n - 1) % n
            }),
    ;
    let g = f.after_cycle(forward);
    assert(g.value == options[j]);
    options.index_of_first_ensures(options[j]);
    assert(options.index_of_first(options[j]) == Some(j));
    let back = if !forward {
        (j + 1) % n
    } else {
        (j + n - 1) % n
    };
    assert(back == i) by (nonlinear_arith)
        requires
            0 <= i < n,
            j == (if forward {
                (i + 1) % n
            } else {
                (i + n - 1) % n
            }),
            back == (if !forward {
                (j + 1) % n
            } else {
                (j + n - 1) % n
            }),
    ;
}

/// Moving the cursor right and then left gives back the position, when it
/// was not at the end.
pub proof fn law_cursor_right_then_left(f: FormFieldView)
    requires
        0 <= f.cursor < byte_len(f.value),
    ensures
        f.after_move_right().after_move_left() == f,
        f.after_move_right().cursor == f.cursor + 1,
{
}

/// In an ASCII text with the cursor inside it, every key and backspace can be
/// handled without a panic.
pub proof fn law_ascii_field_edits_are_safe(f: FormFieldView, c: char)
    requires
        all_ascii(f.value),
        0 <= f.cursor <= f.value.len(),
    ensures
        f.can_insert(c),
        f.can_delete(),
        byte_len(f.value) == f.value.len(),
{
    lemma_ascii_offsets(f.value, f.cursor);
    if f.cursor > 0 {
        lemma_ascii_offsets(f.value, f.cursor - 1);
    }
}

/// Typing an ASCII character into an ASCII text field keeps the text ASCII
/// and the cursor inside it.
pub proof fn law_ascii_typing_stays_ascii(f: FormFieldView, c: char)
    requires
        f.kind is Text || f.kind is Password || f.kind is Number,
        all_ascii(f.value),
        0 <= f.cursor <= f.value.len(),
        (c as u32) < 128,
    ensures
        all_ascii(f.after_insert(c).value),
        0 <= f.after_insert(c).cursor <= f.after_insert(c).value.len(),
{
    lemma_ascii_offsets(f.value, f.cursor);
    let k = f.cursor_index();
    let w = f.value.take(k).push(c) + f.value.skip(k);
    assert forall|i: int| 0 <= i < w.len() implies (#[trigger] w[i] as u32) < 128 by {
        if i < k {
            assert(w[i] == f.value[i]);
        } else if i > k {
            assert(w[i] == f.value[i - 1]);
        }
    }
}

/// Editing a profile and saving the form without changes gives back the
/// profile's name, provider type, base URL, API key, default model, priority
/// and switch.
pub proof fn law_profile_form_round_trip(p: ProfileConfig, form: ProfileForm, c: ProfileConfig)
    requires
        form.shows_profile(p),
        is_config_of(c, form.field_views()),
    ensures
        c.name@ == p.name@,
        c.provider_type == p.provider_type,
        c.base_url@ == p.base_url@,
        c.api_key@ == p.api_key@,
        c.default_model@ == p.default_model@,
        c.priority == p.priority,
        c.enabled == p.enabled,
{
    lemma_provider_labels();
    lemma_parse_decimal(p.priority);
    reveal_strlit("true");
    reveal_strlit("false");
    assert("true"@.len() != "false"@.len());
    let fields = form.field_views();
    assert(fields[FIELD_PROVIDER_TYPE as int].value == provider_label(p.provider_type));
    assert(fields[FIELD_PRIORITY as int].value == decimal(p.priority as nat));
    assert(fields[FIELD_ENABLED as int].value == bool_text(p.enabled));
}

} // verus!
