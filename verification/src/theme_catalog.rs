//! The theme catalog: three built-in themes plus any number of saved themes, one selected,
//! and an editable draft with dirty tracking and guarded navigation; and the stored
//! preferences, their format versions and the migration of the single-custom-theme format.
use crate::color::RgbColor;
use crate::text::{
    char_is_control, chars_eq_ignore_case, chars_of, eq_ignore_case, is_control,
    string_from_chars, trim, trim_chars,
};
use crate::theme::{
    dark_tokens, glass_tokens, hex, light_tokens, rgb_token, HexColor, ThemeTokens,
};
use vstd::prelude::*;

verus! {

/// The file format version written today.
pub const SETTINGS_SCHEMA_VERSION: u32 = 3;

/// The previous format, which stored colours without alpha.
pub const RGB_SETTINGS_SCHEMA_VERSION: u32 = 2;

/// Blur radius of a new glass material, in pixels.
pub const DEFAULT_GLASS_BLUR: u8 = 18;

/// Translucency of a new glass material, in percent.
pub const DEFAULT_GLASS_TRANSLUCENCY: u8 = 72;

/// The themes that ship with the application.
#[derive(Clone, Copy, Debug, PartialEq, Eq, Structural, Hash)]
pub enum BuiltInTheme {
    Light,
    Dark,
    Glass,
}

/// The stable identity of a saved theme; renaming keeps it.
#[derive(Clone, Copy, Debug, PartialEq, Eq, Structural, Hash)]
pub struct SavedThemeId(pub u64);

/// A built-in or a saved theme.
#[derive(Clone, Copy, Debug, PartialEq, Eq, Structural, Hash)]
pub enum ThemeId {
    BuiltIn(BuiltInTheme),
    Saved(SavedThemeId),
}

/// How the window background is painted.
#[derive(Clone, Copy, Debug, PartialEq, Eq, Structural)]
pub enum WindowMaterial {
    Solid,
    Glass { blur: u8, translucency: u8, solid_when_inactive: bool },
}

/// Everything a theme decides: colours and window material.
#[derive(Clone, Copy, Debug, PartialEq, Eq)]
pub struct AppearanceSpec {
    pub tokens: ThemeTokens,
    pub material: WindowMaterial,
}

/// A theme the user saved.
#[derive(Clone, Debug, PartialEq, Eq)]
pub struct SavedTheme {
    pub id: SavedThemeId,
    pub name: String,
    pub appearance: AppearanceSpec,
}

/// One entry of the theme picker.
#[derive(Clone, Debug, PartialEq, Eq)]
pub struct ThemeChoice {
    pub id: ThemeId,
    pub label: String,
    pub built_in: bool,
}

/// The answer to "save your changes before switching themes?".
#[derive(Clone, Copy, Debug, PartialEq, Eq, Structural)]
pub enum DirtyDecision {
    Save,
    Discard,
    Cancel,
}

/// What the draft is editing: the selected theme, or a theme not yet saved.
#[derive(Clone, Copy, Debug, PartialEq, Eq, Structural)]
pub enum DraftOrigin {
    Selected(ThemeId),
    New,
}

/// The theme being edited.
#[derive(Clone, Debug, PartialEq, Eq)]
struct ThemeDraft {
    origin: DraftOrigin,
    name: String,
    appearance: AppearanceSpec,
    dirty: bool,
}

/// The built-in and saved themes, the selection, and the draft being edited.
#[derive(Clone, Debug, PartialEq, Eq)]
pub struct ThemeCatalog {
    selected: ThemeId,
    saved: Vec<SavedTheme>,
    next_saved_id: u64,
    draft: ThemeDraft,
    pending_selection: Option<ThemeId>,
}

/// A saved theme as plain values.
pub struct SavedModel {
    pub id: SavedThemeId,
    pub name: Seq<char>,
    pub appearance: AppearanceSpec,
}

/// The draft as plain values.
pub struct DraftModel {
    pub origin: DraftOrigin,
    pub name: Seq<char>,
    pub appearance: AppearanceSpec,
    pub dirty: bool,
}

/// The catalog as plain values.
pub struct CatalogModel {
    pub selected: ThemeId,
    pub saved: Seq<SavedModel>,
    pub next_saved_id: u64,
    pub draft: DraftModel,
    pub pending: Option<ThemeId>,
}

/// A saved theme as plain values.
pub open spec fn saved_model(t: SavedTheme) -> SavedModel {
    SavedModel { id: t.id, name: t.name@, appearance: t.appearance }
}

/// A list of saved themes as plain values.
pub open spec fn saved_models(ts: Seq<SavedTheme>) -> Seq<SavedModel> {
    Seq::new(ts.len(), |i: int| saved_model(ts[i]))
}

impl View for ThemeCatalog {
    type V = CatalogModel;

    closed spec fn view(&self) -> CatalogModel {
        CatalogModel {
            selected: self.selected,
            saved: saved_models(self.saved@),
            next_saved_id: self.next_saved_id,
            draft: DraftModel {
                origin: self.draft.origin,
                name: self.draft.name@,
                appearance: self.draft.appearance,
                dirty: self.draft.dirty,
            },
            pending: self.pending_selection,
        }
    }
}

/// The default glass material.
pub open spec fn default_glass() -> WindowMaterial {
    WindowMaterial::Glass {
        blur: DEFAULT_GLASS_BLUR,
        translucency: DEFAULT_GLASS_TRANSLUCENCY,
        solid_when_inactive: false,
    }
}

/// The appearance of a built-in theme.
pub open spec fn builtin_appearance(b: BuiltInTheme) -> AppearanceSpec {
    match b {
        BuiltInTheme::Light => AppearanceSpec { tokens: light_tokens(), material: WindowMaterial::Solid },
        BuiltInTheme::Dark => AppearanceSpec { tokens: dark_tokens(), material: WindowMaterial::Solid },
        BuiltInTheme::Glass => AppearanceSpec { tokens: glass_tokens(), material: default_glass() },
    }
}

/// The label of a built-in theme.
pub open spec fn builtin_label(b: BuiltInTheme) -> Seq<char> {
    match b {
        BuiltInTheme::Light => "Light"@,
        BuiltInTheme::Dark => "Dark"@,
        BuiltInTheme::Glass => "Glass"@,
    }
}

/// The selection a catalog falls back to: the dark theme.
pub open spec fn default_theme() -> ThemeId {
    ThemeId::BuiltIn(BuiltInTheme::Dark)
}

/// `i` is the first saved theme with identity `id`.
pub open spec fn is_first_saved(saved: Seq<SavedModel>, id: SavedThemeId, i: int) -> bool {
    0 <= i < saved.len() && saved[i].id == id && forall|j: int| 0 <= j < i ==> saved[j].id != id
}

/// The position of the first saved theme with identity `id`.
pub open spec fn find_saved(saved: Seq<SavedModel>, id: SavedThemeId) -> Option<int> {
    if exists|i: int| is_first_saved(saved, id, i) {
        Some(choose|i: int| is_first_saved(saved, id, i))
    } else {
        None
    }
}

/// Whether a theme exists.
pub open spec fn contains(m: CatalogModel, id: ThemeId) -> bool {
    match id {
        ThemeId::BuiltIn(_) => true,
        ThemeId::Saved(s) => find_saved(m.saved, s) is Some,
    }
}

/// The label of a theme, if it exists.
pub open spec fn label_of(m: CatalogModel, id: ThemeId) -> Option<Seq<char>> {
    match id {
        ThemeId::BuiltIn(b) => Some(builtin_label(b)),
        ThemeId::Saved(s) => match find_saved(m.saved, s) {
            Some(i) => Some(m.saved[i].name),
            None => None,
        },
    }
}

/// The catalog with a fresh, clean draft of the selected theme.
pub open spec fn load_draft(m: CatalogModel) -> CatalogModel {
    let (name, appearance) = match m.selected {
        ThemeId::BuiltIn(b) => (Seq::<char>::empty(), builtin_appearance(b)),
        ThemeId::Saved(s) => match find_saved(m.saved, s) {
            Some(i) => (m.saved[i].name, m.saved[i].appearance),
            None => (Seq::<char>::empty(), builtin_appearance(BuiltInTheme::Dark)),
        },
    };
    CatalogModel {
        draft: DraftModel {
            origin: DraftOrigin::Selected(m.selected),
            name,
            appearance,
            dirty: false,
        },
        ..m
    }
}

/// The catalog with `id` selected, nothing pending, and a clean draft of it.
pub open spec fn select_now(m: CatalogModel, id: ThemeId) -> CatalogModel {
    load_draft(CatalogModel { selected: id, pending: None, ..m })
}

/// What every catalog keeps true: the next identity is positive and above every saved one
/// (unless identities ran out), the selection and any pending selection exist, and the
/// draft edits either the selection or a new theme; a new theme is always unsaved, and a
/// draft without changes is a fresh copy of the selection.
pub open spec fn catalog_wf(m: CatalogModel) -> bool {
    &&& m.next_saved_id >= 1
    &&& forall|k: int|
        0 <= k < m.saved.len() ==> (#[trigger] m.saved[k]).id.0 < m.next_saved_id
            || m.next_saved_id == u64::MAX
    &&& contains(m, m.selected)
    &&& (m.pending matches Some(p) ==> contains(m, p))
    &&& (m.draft.origin matches DraftOrigin::Selected(x) ==> x == m.selected)
    &&& (m.draft.origin == DraftOrigin::New ==> m.draft.dirty)
    &&& (!m.draft.dirty ==> m.draft == load_draft(m).draft)
}

impl ThemeCatalog {
    /// Whether the catalog keeps its invariant.
    pub open spec fn wf(&self) -> bool {
        catalog_wf(self@)
    }
}

impl BuiltInTheme {
    /// The name shown for this theme.
    pub fn label(self) -> (label: &'static str)
        ensures
            label@ == builtin_label(self),
    {
        match self {
            BuiltInTheme::Light => "Light",
            BuiltInTheme::Dark => "Dark",
            BuiltInTheme::Glass => "Glass",
        }
    }

    /// The colours and material of this theme.
    pub fn appearance(self) -> (a: AppearanceSpec)
        ensures
            a == builtin_appearance(self),
    {
        match self {
            BuiltInTheme::Light => AppearanceSpec::solid(ThemeTokens::light()),
            BuiltInTheme::Dark => AppearanceSpec::solid(ThemeTokens::dark()),
            BuiltInTheme::Glass => AppearanceSpec {
                tokens: ThemeTokens::glass(),
                material: WindowMaterial::Glass {
                    blur: DEFAULT_GLASS_BLUR,
                    translucency: DEFAULT_GLASS_TRANSLUCENCY,
                    solid_when_inactive: false,
                },
            },
        }
    }
}

impl Default for ThemeId {
    fn default() -> (id: ThemeId)
        ensures
            id == default_theme(),
    {
        ThemeId::BuiltIn(BuiltInTheme::Dark)
    }
}

impl WindowMaterial {
    /// Whether this is the glass material.
    pub fn is_glass(&self) -> (r: bool)
        ensures
            r == (*self is Glass),
    {
        match self {
            WindowMaterial::Glass { .. } => true,
            WindowMaterial::Solid => false,
        }
    }
}

impl AppearanceSpec {
    /// A solid-material appearance with these tokens.
    pub fn solid(tokens: ThemeTokens) -> (a: AppearanceSpec)
        ensures
            a == (AppearanceSpec { tokens, material: WindowMaterial::Solid }),
    {
        AppearanceSpec { tokens, material: WindowMaterial::Solid }
    }
}

impl SavedTheme {
    /// A copy of this theme.
    pub fn copy(&self) -> (t: SavedTheme)
        ensures
            saved_model(t) == saved_model(*self),
    {
        SavedTheme { id: self.id, name: self.name.clone(), appearance: self.appearance }
    }
}


proof fn lemma_find_first(saved: Seq<SavedModel>, id: SavedThemeId, p: int)
    requires
        is_first_saved(saved, id, p),
    ensures
        find_saved(saved, id) == Some(p),
{
    let q = choose|i: int| is_first_saved(saved, id, i);
    assert(is_first_saved(saved, id, q));
    if q < p {
        assert(saved[q].id != id);
    } else if q > p {
        assert(saved[p].id != id);
    }
}

proof fn lemma_find_none(saved: Seq<SavedModel>, id: SavedThemeId)
    requires
        forall|j: int| 0 <= j < saved.len() ==> saved[j].id != id,
    ensures
        find_saved(saved, id) is None,
{
}

/// The largest identity among saved themes, or 0.
pub open spec fn max_saved_id(saved: Seq<SavedModel>) -> u64
    decreases saved.len(),
{
    if saved.len() == 0 {
        0
    } else {
        let rest = max_saved_id(saved.drop_last());
        if saved.last().id.0 > rest {
            saved.last().id.0
        } else {
            rest
        }
    }
}

proof fn lemma_max_saved_id(saved: Seq<SavedModel>)
    ensures
        forall|k: int| 0 <= k < saved.len() ==> (#[trigger] saved[k]).id.0 <= max_saved_id(saved),
    decreases saved.len(),
{
    if saved.len() > 0 {
        lemma_max_saved_id(saved.drop_last());
        assert forall|k: int| 0 <= k < saved.len() implies (#[trigger] saved[k]).id.0
            <= max_saved_id(saved) by {
            if k < saved.len() - 1 {
                assert(saved.drop_last()[k] == saved[k]);
            }
        }
    }
}

/// `a + 1`, or `a` when that would overflow.
pub open spec fn saturating_succ(a: u64) -> u64 {
    if a == u64::MAX {
        a
    } else {
        (a + 1) as u64
    }
}

/// The larger of two identities.
pub open spec fn max_u64(a: u64, b: u64) -> u64 {
    if a >= b {
        a
    } else {
        b
    }
}

/// A catalog restored from stored values: the next identity is raised above every stored
/// one (and to at least 1), an unknown selection falls back to dark, and the draft is a
/// clean copy of the selection.
pub open spec fn restored(selected: ThemeId, saved: Seq<SavedModel>, next_saved_id: u64) -> CatalogModel {
    let next = max_u64(max_u64(next_saved_id, 1), saturating_succ(max_saved_id(saved)));
    let m0 = CatalogModel {
        selected,
        saved,
        next_saved_id: next,
        draft: DraftModel {
            origin: DraftOrigin::Selected(default_theme()),
            name: Seq::empty(),
            appearance: builtin_appearance(BuiltInTheme::Dark),
            dirty: false,
        },
        pending: None,
    };
    let m1 = if contains(m0, selected) {
        m0
    } else {
        CatalogModel { selected: default_theme(), ..m0 }
    };
    load_draft(m1)
}

/// A restored catalog keeps the catalog invariant.
pub proof fn lemma_restored_wf(selected: ThemeId, saved: Seq<SavedModel>, next_saved_id: u64)
    ensures
        catalog_wf(restored(selected, saved, next_saved_id)),
{
    lemma_max_saved_id(saved);
}

impl ThemeCatalog {
    /// The position of the first saved theme with identity `id`.
    fn position(&self, id: SavedThemeId) -> (r: Option<usize>)
        ensures
            match r {
                Some(p) => is_first_saved(self@.saved, id, p as int) && find_saved(self@.saved, id)
                    == Some(p as int),
                None => find_saved(self@.saved, id) is None,
            },
    {
        let mut i: usize = 0;
        while i < self.saved.len()
            invariant
                0 <= i <= self.saved@.len(),
                forall|j: int| 0 <= j < i ==> self.saved@[j].id != id,
            decreases self.saved.len() - i,
        {
            if self.saved[i].id.0 == id.0 {
                proof {
                    assert(self@.saved[i as int].id == id);
                    assert forall|j: int| 0 <= j < i implies self@.saved[j].id != id by {
                        assert(self@.saved[j].id == self.saved@[j].id);
                    }
                    lemma_find_first(self@.saved, id, i as int);
                }
                return Some(i);
            }
            i = i + 1;
        }
        proof {
            assert forall|j: int| 0 <= j < self@.saved.len() implies self@.saved[j].id != id by {
                assert(self@.saved[j].id == self.saved@[j].id);
            }
            lemma_find_none(self@.saved, id);
        }
        None
    }

    /// Whether a theme exists.
    fn contains(&self, id: ThemeId) -> (r: bool)
        ensures
            r == contains(self@, id),
    {
        match id {
            ThemeId::BuiltIn(_) => true,
            ThemeId::Saved(s) => self.position(s).is_some(),
        }
    }

    /// The label of a theme, if it exists.
    fn label(&self, id: ThemeId) -> (r: Option<String>)
        ensures
            match (r, label_of(self@, id)) {
                (Some(a), Some(b)) => a@ == b,
                (None, None) => true,
                _ => false,
            },
    {
        match id {
            ThemeId::BuiltIn(theme) => Some(String::from_str(theme.label())),
            ThemeId::Saved(s) => match self.position(s) {
                Some(p) => Some(self.saved[p].name.clone()),
                None => None,
            },
        }
    }

    /// Replaces the draft with a clean copy of the selected theme.
    fn load_selected_draft(&mut self)
        ensures
            final(self)@ == load_draft(old(self)@),
    {
        let (name, appearance) = match self.selected {
            ThemeId::BuiltIn(theme) => (String::new(), theme.appearance()),
            ThemeId::Saved(id) => match self.position(id) {
                Some(p) => (self.saved[p].name.clone(), self.saved[p].appearance),
                None => (String::new(), BuiltInTheme::Dark.appearance()),
            },
        };
        self.draft = ThemeDraft {
            origin: DraftOrigin::Selected(self.selected),
            name,
            appearance,
            dirty: false,
        };
        assert(self@.draft == load_draft(old(self)@).draft);
        assert(self@.saved =~= old(self)@.saved);
    }

    /// Selects `id` at once, drops any pending selection, and reloads the draft.
    fn select_now(&mut self, id: ThemeId)
        ensures
            final(self)@ == select_now(old(self)@, id),
    {
        self.selected = id;
        self.pending_selection = None;
        proof {
            assert(self@.saved =~= old(self)@.saved);
        }
        self.load_selected_draft();
    }

    /// A catalog restored from stored values.
    pub fn from_persisted(selected: ThemeId, saved: Vec<SavedTheme>, next_saved_id: u64) -> (c:
        ThemeCatalog)
        ensures
            c@ == restored(selected, saved_models(saved@), next_saved_id),
            c.wf(),
    {
        let mut highest: u64 = 0;
        let mut i: usize = 0;
        while i < saved.len()
            invariant
                0 <= i <= saved@.len(),
                highest == max_saved_id(saved_models(saved@).subrange(0, i as int)),
            decreases saved.len() - i,
        {
            proof {
                assert(saved_models(saved@).subrange(0, i + 1).drop_last() =~= saved_models(
                    saved@,
                ).subrange(0, i as int));
            }
            if saved[i].id.0 > highest {
                highest = saved[i].id.0;
            }
            i = i + 1;
        }
        assert(saved_models(saved@).subrange(0, i as int) =~= saved_models(saved@));
        let first: u64 = if next_saved_id >= 1 {
            next_saved_id
        } else {
            1
        };
        let bumped: u64 = highest.saturating_add(1);
        let next: u64 = if first >= bumped {
            first
        } else {
            bumped
        };
        let mut catalog = ThemeCatalog {
            selected,
            saved,
            next_saved_id: next,
            draft: ThemeDraft {
                origin: DraftOrigin::Selected(ThemeId::BuiltIn(BuiltInTheme::Dark)),
                name: String::new(),
                appearance: BuiltInTheme::Dark.appearance(),
                dirty: false,
            },
            pending_selection: None,
        };
        if !catalog.contains(catalog.selected) {
            catalog.selected = ThemeId::BuiltIn(BuiltInTheme::Dark);
        }
        catalog.load_selected_draft();
        proof {
            lemma_restored_wf(selected, saved_models(catalog.saved@), next_saved_id);
        }
        catalog
    }
}


/// Whether a saved theme other than `current` already has the name, ignoring ASCII case.
pub open spec fn name_taken(saved: Seq<SavedModel>, name: Seq<char>, current: Option<SavedThemeId>) -> bool {
    exists|k: int|
        0 <= k < saved.len() && Some((#[trigger] saved[k]).id) != current && eq_ignore_case(
            saved[k].name,
            name,
        )
}

/// A proposed theme name, trimmed, or why it is refused: empty, longer than 64 characters
/// or holding a control character, or already used by another saved theme.
pub open spec fn name_check(saved: Seq<SavedModel>, name: Seq<char>, current: Option<SavedThemeId>) -> Result<
    Seq<char>,
    Seq<char>,
> {
    let t = trim(name);
    if t.len() == 0 {
        Err("Enter a theme name"@)
    } else if t.len() > 64 || exists|i: int| 0 <= i < t.len() && is_control(#[trigger] t[i]) {
        Err("Theme names must be 1\u{2013}64 printable characters"@)
    } else if name_taken(saved, t, current) {
        Err("A theme with that name already exists"@)
    } else {
        Ok(t)
    }
}

/// A message result as plain values.
pub open spec fn message_result<T>(r: Result<T, String>) -> Result<T, Seq<char>> {
    match r {
        Ok(v) => Ok(v),
        Err(m) => Err(m@),
    }
}

/// A text-or-message result as plain values.
pub open spec fn text_result(r: Result<String, String>) -> Result<Seq<char>, Seq<char>> {
    match r {
        Ok(v) => Ok(v@),
        Err(m) => Err(m@),
    }
}

/// The catalog after `begin_new_theme`, and its answer.
pub open spec fn begin_new_spec(m: CatalogModel) -> (CatalogModel, bool) {
    if m.draft.dirty {
        (m, false)
    } else {
        (
            CatalogModel {
                draft: DraftModel {
                    origin: DraftOrigin::New,
                    name: Seq::empty(),
                    appearance: m.draft.appearance,
                    dirty: true,
                },
                ..m
            },
            true,
        )
    }
}

/// The draft with a new appearance; it becomes dirty when the appearance changed.
pub open spec fn with_appearance(m: CatalogModel, a: AppearanceSpec) -> CatalogModel {
    if m.draft.appearance == a {
        m
    } else {
        CatalogModel { draft: DraftModel { appearance: a, dirty: true, ..m.draft }, ..m }
    }
}

/// The catalog after `request_selection(id)`, and its answer.
pub open spec fn request_spec(m: CatalogModel, id: ThemeId) -> (CatalogModel, Result<bool, Seq<char>>) {
    if !contains(m, id) {
        (m, Err("That theme no longer exists"@))
    } else if m.draft.dirty {
        if m.draft.origin == DraftOrigin::Selected(id) {
            (m, Ok(true))
        } else {
            (CatalogModel { pending: Some(id), ..m }, Ok(false))
        }
    } else {
        (select_now(m, id), Ok(true))
    }
}

/// The catalog after `save_draft`, and its answer.
pub open spec fn save_spec(m: CatalogModel) -> (CatalogModel, Result<ThemeId, Seq<char>>) {
    match m.draft.origin {
        DraftOrigin::Selected(ThemeId::Saved(id)) => match name_check(m.saved, m.draft.name, Some(id)) {
            Err(e) => (m, Err(e)),
            Ok(name) => match find_saved(m.saved, id) {
                None => (m, Err("That theme no longer exists"@)),
                Some(i) => (
                    CatalogModel {
                        saved: m.saved.update(
                            i,
                            SavedModel { id, name, appearance: m.draft.appearance },
                        ),
                        draft: DraftModel { name, dirty: false, ..m.draft },
                        ..m
                    },
                    Ok(ThemeId::Saved(id)),
                ),
            },
        },
        _ => match name_check(m.saved, m.draft.name, None) {
            Err(e) => (m, Err(e)),
            Ok(name) => {
                let id = SavedThemeId(m.next_saved_id);
                let added = CatalogModel {
                    saved: m.saved.push(SavedModel { id, name, appearance: m.draft.appearance }),
                    next_saved_id: max_u64(saturating_succ(m.next_saved_id), 1),
                    selected: ThemeId::Saved(id),
                    ..m
                };
                (load_draft(added), Ok(ThemeId::Saved(id)))
            },
        },
    }
}

/// The catalog after `resolve_pending(decision)`, and its answer.
pub open spec fn resolve_spec(m: CatalogModel, decision: DirtyDecision) -> (CatalogModel, Result<bool, Seq<char>>) {
    match m.pending {
        None => (m, Ok(false)),
        Some(target) => match decision {
            DirtyDecision::Cancel => (CatalogModel { pending: None, ..m }, Ok(false)),
            DirtyDecision::Discard => (select_now(m, target), Ok(true)),
            DirtyDecision::Save => match save_spec(m).1 {
                Err(e) => (m, Err(e)),
                Ok(_) => (select_now(save_spec(m).0, target), Ok(true)),
            },
        },
    }
}

/// The saved theme being edited, if the draft edits one.
pub open spec fn editing_saved_spec(m: CatalogModel) -> Option<SavedThemeId> {
    match m.draft.origin {
        DraftOrigin::Selected(ThemeId::Saved(id)) => Some(id),
        _ => None,
    }
}

/// The catalog after `rename_selected(name)`, and its answer.
pub open spec fn rename_spec(m: CatalogModel, name: Seq<char>) -> (CatalogModel, Result<SavedThemeId, Seq<char>>) {
    if m.draft.dirty {
        (m, Err("Save or discard changes before renaming"@))
    } else {
        match editing_saved_spec(m) {
            None => (m, Err("Built-in themes cannot be renamed"@)),
            Some(id) => match name_check(m.saved, name, Some(id)) {
                Err(e) => (m, Err(e)),
                Ok(n) => {
                    let i = find_saved(m.saved, id)->0;
                    (
                        CatalogModel {
                            saved: m.saved.update(i, SavedModel { name: n, ..m.saved[i] }),
                            draft: DraftModel { name: n, dirty: false, ..m.draft },
                            ..m
                        },
                        Ok(id),
                    )
                },
            },
        }
    }
}

/// Whether a saved theme survives deleting the theme `id`.
pub open spec fn keeps(id: SavedThemeId) -> spec_fn(SavedModel) -> bool {
    |t: SavedModel| t.id != id
}

/// The catalog after `delete_selected`, and its answer.
pub open spec fn delete_spec(m: CatalogModel) -> (CatalogModel, Result<SavedThemeId, Seq<char>>) {
    if m.draft.dirty {
        (m, Err("Save or discard changes before deleting"@))
    } else {
        match m.selected {
            ThemeId::BuiltIn(_) => (m, Err("Built-in themes cannot be deleted"@)),
            ThemeId::Saved(id) => (
                load_draft(
                    CatalogModel {
                        saved: m.saved.filter(keeps(id)),
                        selected: default_theme(),
                        pending: None,
                        ..m
                    },
                ),
                Ok(id),
            ),
        }
    }
}

/// The picker entries: the three built-in themes, then every saved theme in order.
pub open spec fn choices_spec(m: CatalogModel) -> Seq<(ThemeId, Seq<char>, bool)> {
    seq![
        (ThemeId::BuiltIn(BuiltInTheme::Light), "Light"@, true),
        (ThemeId::BuiltIn(BuiltInTheme::Dark), "Dark"@, true),
        (ThemeId::BuiltIn(BuiltInTheme::Glass), "Glass"@, true),
    ] + Seq::new(m.saved.len(), |i: int| (ThemeId::Saved(m.saved[i].id), m.saved[i].name, false))
}

/// A picker entry as plain values.
pub open spec fn choice_view(c: ThemeChoice) -> (ThemeId, Seq<char>, bool) {
    (c.id, c.label@, c.built_in)
}


impl ThemeCatalog {
    /// A proposed name, trimmed, or why it is refused.
    fn valid_name(&self, name: &str, current: Option<SavedThemeId>) -> (r: Result<String, String>)
        ensures
            text_result(r) == name_check(self@.saved, name@, current),
    {
        let raw = chars_of(name);
        let trimmed = trim_chars(raw.as_slice());
        if trimmed.len() == 0 {
            return Err(String::from_str("Enter a theme name"));
        }
        let mut has_control = false;
        let mut i: usize = 0;
        while i < trimmed.len()
            invariant
                0 <= i <= trimmed@.len(),
                has_control == exists|j: int| 0 <= j < i && is_control(#[trigger] trimmed@[j]),
            decreases trimmed.len() - i,
        {
            if char_is_control(trimmed[i]) {
                has_control = true;
            }
            i = i + 1;
        }
        if trimmed.len() > 64 || has_control {
            return Err(String::from_str("Theme names must be 1\u{2013}64 printable characters"));
        }
        let mut k: usize = 0;
        while k < self.saved.len()
            invariant
                0 <= k <= self.saved@.len(),
                trimmed@ == trim(name@),
                0 < trimmed@.len() <= 64,
                !(exists|j: int| 0 <= j < trimmed@.len() && is_control(#[trigger] trimmed@[j])),
                forall|j: int|
                    0 <= j < k ==> !(Some((#[trigger] self@.saved[j]).id) != current && eq_ignore_case(
                        self@.saved[j].name,
                        trimmed@,
                    )),
            decreases self.saved.len() - k,
        {
            let other = chars_of(self.saved[k].name.as_str());
            let different_theme = match current {
                Some(c) => self.saved[k].id.0 != c.0,
                None => true,
            };
            if different_theme && chars_eq_ignore_case(other.as_slice(), trimmed.as_slice()) {
                proof {
                    assert(self@.saved[k as int].name == other@);
                    assert(Some(self@.saved[k as int].id) != current);
                    assert(name_taken(self@.saved, trimmed@, current));
                }
                return Err(String::from_str("A theme with that name already exists"));
            }
            k = k + 1;
        }
        Ok(string_from_chars(trimmed.as_slice()))
    }

    /// The picker entries: built-in themes first, then saved themes in order.
    pub fn choices(&self) -> (r: Vec<ThemeChoice>)
        ensures
            r@.len() == choices_spec(self@).len(),
            forall|i: int| 0 <= i < r@.len() ==> #[trigger] choice_view(r@[i]) == choices_spec(self@)[i],
    {
        let mut choices: Vec<ThemeChoice> = Vec::new();
        choices.push(
            ThemeChoice {
                id: ThemeId::BuiltIn(BuiltInTheme::Light),
                label: String::from_str(BuiltInTheme::Light.label()),
                built_in: true,
            },
        );
        choices.push(
            ThemeChoice {
                id: ThemeId::BuiltIn(BuiltInTheme::Dark),
                label: String::from_str(BuiltInTheme::Dark.label()),
                built_in: true,
            },
        );
        choices.push(
            ThemeChoice {
                id: ThemeId::BuiltIn(BuiltInTheme::Glass),
                label: String::from_str(BuiltInTheme::Glass.label()),
                built_in: true,
            },
        );
        let mut i: usize = 0;
        while i < self.saved.len()
            invariant
                0 <= i <= self.saved@.len(),
                choices@.len() == 3 + i,
                forall|k: int|
                    0 <= k < 3 + i ==> #[trigger] choice_view(choices@[k]) == choices_spec(self@)[k],
            decreases self.saved.len() - i,
        {
            choices.push(
                ThemeChoice {
                    id: ThemeId::Saved(self.saved[i].id),
                    label: self.saved[i].name.clone(),
                    built_in: false,
                },
            );
            i = i + 1;
        }
        choices
    }

    /// The selected theme.
    pub fn selected(&self) -> (id: ThemeId)
        ensures
            id == self@.selected,
    {
        self.selected
    }

    /// The label of the selected theme.
    pub fn selected_label(&self) -> (label: String)
        ensures
            label@ == match label_of(self@, self@.selected) {
                Some(l) => l,
                None => "Dark"@,
            },
    {
        match self.label(self.selected) {
            Some(label) => label,
            None => String::from_str("Dark"),
        }
    }

    /// The saved theme the draft edits, if any.
    pub fn editing_saved(&self) -> (r: Option<SavedThemeId>)
        ensures
            r == editing_saved_spec(self@),
    {
        match self.draft.origin {
            DraftOrigin::Selected(ThemeId::Saved(id)) => Some(id),
            _ => None,
        }
    }

    /// Whether the draft is a theme not yet saved.
    pub fn is_creating(&self) -> (r: bool)
        ensures
            r == (self@.draft.origin == DraftOrigin::New),
    {
        match self.draft.origin {
            DraftOrigin::New => true,
            DraftOrigin::Selected(_) => false,
        }
    }

    /// Whether the draft has unsaved changes.
    pub fn is_dirty(&self) -> (r: bool)
        ensures
            r == self@.draft.dirty,
    {
        self.draft.dirty
    }

    /// The draft's name.
    pub fn draft_name(&self) -> (name: &str)
        ensures
            name@ == self@.draft.name,
    {
        self.draft.name.as_str()
    }

    /// The appearance being shown: the draft's.
    pub fn resolved_appearance(&self) -> (a: &AppearanceSpec)
        ensures
            *a == self@.draft.appearance,
    {
        &self.draft.appearance
    }

    /// The saved themes, in the order they were saved.
    pub fn saved_themes(&self) -> (themes: &[SavedTheme])
        ensures
            saved_models(themes@) == self@.saved,
    {
        self.saved.as_slice()
    }

    /// The selection waiting for a save, discard or cancel decision.
    pub fn pending_selection(&self) -> (r: Option<ThemeId>)
        ensures
            r == self@.pending,
    {
        self.pending_selection
    }

    /// Starts a new theme from the current appearance; refused while the draft is dirty.
    pub fn begin_new_theme(&mut self) -> (started: bool)
        ensures
            (final(self)@, started) == begin_new_spec(old(self)@),
            old(self).wf() ==> final(self).wf(),
    {
        if self.is_dirty() {
            return false;
        }
        self.draft = ThemeDraft {
            origin: DraftOrigin::New,
            name: String::new(),
            appearance: self.draft.appearance,
            dirty: true,
        };
        assert(self@.saved =~= old(self)@.saved);
        true
    }

    /// Renames the draft; the draft becomes dirty when the name changed.
    pub fn set_draft_name(&mut self, name: String)
        ensures
            final(self)@ == (if old(self)@.draft.name == name@ {
                old(self)@
            } else {
                CatalogModel { draft: DraftModel { name: name@, dirty: true, ..old(self)@.draft }, ..old(self)@ }
            }),
            old(self).wf() ==> final(self).wf(),
    {
        if self.draft.name != name {
            self.draft.name = name;
            self.draft.dirty = true;
            assert(self@.saved =~= old(self)@.saved);
        }
    }

    /// Replaces the draft's tokens; the draft becomes dirty when they changed.
    pub fn set_draft_tokens(&mut self, tokens: ThemeTokens)
        ensures
            final(self)@ == with_appearance(
                old(self)@,
                AppearanceSpec { tokens, ..old(self)@.draft.appearance },
            ),
            old(self).wf() ==> final(self).wf(),
    {
        if !self.draft.appearance.tokens.same_tokens(&tokens) {
            self.draft.appearance.tokens = tokens;
            self.draft.dirty = true;
            assert(self@.saved =~= old(self)@.saved);
        }
    }

    /// Switches the draft to the solid material.
    pub fn set_solid(&mut self)
        ensures
            final(self)@ == with_appearance(
                old(self)@,
                AppearanceSpec { material: WindowMaterial::Solid, ..old(self)@.draft.appearance },
            ),
            old(self).wf() ==> final(self).wf(),
    {
        if self.draft.appearance.material != WindowMaterial::Solid {
            self.draft.appearance.material = WindowMaterial::Solid;
            self.draft.dirty = true;
            assert(self@.saved =~= old(self)@.saved);
        }
    }

    /// Switches the draft to glass with the default settings, unless it is glass already.
    pub fn set_glass(&mut self)
        ensures
            final(self)@ == (if old(self)@.draft.appearance.material is Glass {
                old(self)@
            } else {
                with_appearance(
                    old(self)@,
                    AppearanceSpec { material: default_glass(), ..old(self)@.draft.appearance },
                )
            }),
            old(self).wf() ==> final(self).wf(),
    {
        if !self.draft.appearance.material.is_glass() {
            self.draft.appearance.material = WindowMaterial::Glass {
                blur: DEFAULT_GLASS_BLUR,
                translucency: DEFAULT_GLASS_TRANSLUCENCY,
                solid_when_inactive: false,
            };
            self.draft.dirty = true;
            assert(self@.saved =~= old(self)@.saved);
        }
    }

    /// Sets the draft's glass material; blur is capped at 64 and translucency at 90.
    pub fn set_glass_values(&mut self, blur: u8, translucency: u8, solid_when_inactive: bool)
        ensures
            final(self)@ == with_appearance(
                old(self)@,
                AppearanceSpec {
                    material: WindowMaterial::Glass {
                        blur: if blur > 64 {
                            64
                        } else {
                            blur
                        },
                        translucency: if translucency > 90 {
                            90
                        } else {
                            translucency
                        },
                        solid_when_inactive,
                    },
                    ..old(self)@.draft.appearance
                },
            ),
            old(self).wf() ==> final(self).wf(),
    {
        let material = WindowMaterial::Glass {
            blur: if blur > 64 {
                64
            } else {
                blur
            },
            translucency: if translucency > 90 {
                90
            } else {
                translucency
            },
            solid_when_inactive,
        };
        if self.draft.appearance.material != material {
            self.draft.appearance.material = material;
            self.draft.dirty = true;
            assert(self@.saved =~= old(self)@.saved);
        }
    }

    /// Asks to show theme `id`. A clean draft switches at once (`Ok(true)`); a dirty one
    /// keeps the selection and leaves `id` pending for a decision (`Ok(false)`), unless the
    /// draft already edits `id`.
    pub fn request_selection(&mut self, id: ThemeId) -> (r: Result<bool, String>)
        ensures
            (final(self)@, message_result(r)) == request_spec(old(self)@, id),
            old(self).wf() ==> final(self).wf(),
    {
        if !self.contains(id) {
            return Err(String::from_str("That theme no longer exists"));
        }
        if self.draft.dirty {
            if self.draft.origin == DraftOrigin::Selected(id) {
                return Ok(true);
            }
            self.pending_selection = Some(id);
            assert(self@.saved =~= old(self)@.saved);
            return Ok(false);
        }
        self.select_now(id);
        Ok(true)
    }
}


impl ThemeCatalog {
    /// Saves the draft. A draft of a saved theme updates that theme in place and keeps its
    /// identity; any other draft becomes a new saved theme with a fresh identity, which is
    /// then selected. Refused when the trimmed name is invalid or taken.
    pub fn save_draft(&mut self) -> (r: Result<ThemeId, String>)
        ensures
            (final(self)@, message_result(r)) == save_spec(old(self)@),
            old(self).wf() ==> final(self).wf(),
    {
        proof {
            if old(self).wf() {
                lemma_save_wf(old(self)@);
            }
        }
        match self.draft.origin {
            DraftOrigin::Selected(ThemeId::Saved(id)) => {
                let name = match self.valid_name(self.draft.name.as_str(), Some(id)) {
                    Ok(n) => n,
                    Err(e) => {
                        return Err(e);
                    },
                };
                let p = match self.position(id) {
                    Some(p) => p,
                    None => {
                        return Err(String::from_str("That theme no longer exists"));
                    },
                };
                let appearance = self.draft.appearance;
                self.saved.set(p, SavedTheme { id, name: name.clone(), appearance });
                self.draft.name = name;
                self.draft.dirty = false;
                assert(self@.saved =~= old(self)@.saved.update(
                    p as int,
                    SavedModel { id, name: self@.draft.name, appearance: old(self)@.draft.appearance },
                ));
                Ok(ThemeId::Saved(id))
            },
            _ => {
                let name = match self.valid_name(self.draft.name.as_str(), None) {
                    Ok(n) => n,
                    Err(e) => {
                        return Err(e);
                    },
                };
                let id = SavedThemeId(self.next_saved_id);
                let bumped: u64 = self.next_saved_id.saturating_add(1);
                self.next_saved_id = if bumped >= 1 {
                    bumped
                } else {
                    1
                };
                let appearance = self.draft.appearance;
                self.saved.push(SavedTheme { id, name, appearance });
                self.selected = ThemeId::Saved(id);
                assert(self@.saved =~= old(self)@.saved.push(
                    SavedModel { id, name: self@.saved.last().name, appearance },
                ));
                self.load_selected_draft();
                Ok(ThemeId::Saved(id))
            },
        }
    }

    /// Settles a pending selection: cancel keeps the current theme; discard drops the draft
    /// and switches; save stores the draft first and switches only if that succeeded.
    /// Without a pending selection nothing happens (`Ok(false)`).
    pub fn resolve_pending(&mut self, decision: DirtyDecision) -> (r: Result<bool, String>)
        ensures
            (final(self)@, message_result(r)) == resolve_spec(old(self)@, decision),
            old(self).wf() ==> final(self).wf(),
    {
        proof {
            if old(self).wf() {
                lemma_resolve_wf(old(self)@, decision);
            }
        }
        let target = match self.pending_selection {
            Some(t) => t,
            None => {
                return Ok(false);
            },
        };
        match decision {
            DirtyDecision::Cancel => {
                self.pending_selection = None;
                assert(self@.saved =~= old(self)@.saved);
                Ok(false)
            },
            DirtyDecision::Discard => {
                self.pending_selection = None;
                self.select_now(target);
                Ok(true)
            },
            DirtyDecision::Save => {
                match self.save_draft() {
                    Ok(_) => {},
                    Err(e) => {
                        return Err(e);
                    },
                }
                self.pending_selection = None;
                self.select_now(target);
                Ok(true)
            },
        }
    }

    /// Drops the draft's changes and any pending selection.
    pub fn discard_draft(&mut self)
        ensures
            final(self)@ == load_draft(CatalogModel { pending: None, ..old(self)@ }),
            old(self).wf() ==> final(self).wf(),
    {
        self.pending_selection = None;
        assert(self@.saved =~= old(self)@.saved);
        self.load_selected_draft();
    }
}


/// Two lists of saved themes with the same identities at every position.
pub open spec fn same_ids(a: Seq<SavedModel>, b: Seq<SavedModel>) -> bool {
    a.len() == b.len() && forall|k: int| 0 <= k < a.len() ==> (#[trigger] a[k]).id == b[k].id
}

proof fn lemma_same_ids_find(a: Seq<SavedModel>, b: Seq<SavedModel>, id: SavedThemeId)
    requires
        same_ids(a, b),
    ensures
        find_saved(a, id) == find_saved(b, id),
{
    if exists|i: int| is_first_saved(a, id, i) {
        let p = choose|i: int| is_first_saved(a, id, i);
        assert(is_first_saved(b, id, p)) by {
            assert forall|j: int| 0 <= j < p implies b[j].id != id by {
                assert(a[j].id == b[j].id);
            }
            assert(a[p].id == b[p].id);
        }
        lemma_find_first(a, id, p);
        lemma_find_first(b, id, p);
    } else if exists|i: int| is_first_saved(b, id, i) {
        let p = choose|i: int| is_first_saved(b, id, i);
        assert(is_first_saved(a, id, p)) by {
            assert forall|j: int| 0 <= j < p implies a[j].id != id by {
                assert(a[j].id == b[j].id);
            }
            assert(a[p].id == b[p].id);
        }
    }
}

proof fn lemma_some_first(saved: Seq<SavedModel>, id: SavedThemeId, k: int)
    requires
        0 <= k < saved.len(),
        saved[k].id == id,
    ensures
        find_saved(saved, id) is Some,
    decreases k,
{
    if exists|j: int| 0 <= j < k && saved[j].id == id {
        let j = choose|j: int| 0 <= j < k && saved[j].id == id;
        lemma_some_first(saved, id, j);
    } else {
        assert(is_first_saved(saved, id, k));
    }
}

proof fn lemma_push_keeps_find(saved: Seq<SavedModel>, t: SavedModel, id: SavedThemeId)
    requires
        find_saved(saved, id) is Some,
    ensures
        find_saved(saved.push(t), id) == find_saved(saved, id),
{
    let p = choose|i: int| is_first_saved(saved, id, i);
    assert(is_first_saved(saved, id, p));
    assert(is_first_saved(saved.push(t), id, p)) by {
        assert forall|j: int| 0 <= j < p implies saved.push(t)[j].id != id by {
            assert(saved.push(t)[j] == saved[j]);
        }
    }
    lemma_find_first(saved.push(t), id, p);
    lemma_find_first(saved, id, p);
}

/// The catalog invariant, without its clause on the draft.
pub open spec fn catalog_wf_but_draft(m: CatalogModel) -> bool {
    &&& m.next_saved_id >= 1
    &&& forall|k: int|
        0 <= k < m.saved.len() ==> (#[trigger] m.saved[k]).id.0 < m.next_saved_id
            || m.next_saved_id == u64::MAX
    &&& contains(m, m.selected)
    &&& (m.pending matches Some(p) ==> contains(m, p))
}

proof fn lemma_load_draft_wf(m: CatalogModel)
    requires
        catalog_wf_but_draft(m),
    ensures
        catalog_wf(load_draft(m)),
        load_draft(m).saved == m.saved,
{
}

/// Saving keeps the catalog invariant, and every theme that existed still exists.
pub proof fn lemma_save_wf(m: CatalogModel)
    requires
        catalog_wf(m),
    ensures
        catalog_wf(save_spec(m).0),
        forall|id: ThemeId| contains(m, id) ==> contains(save_spec(m).0, id),
{
    match m.draft.origin {
        DraftOrigin::Selected(ThemeId::Saved(id)) => {
            match name_check(m.saved, m.draft.name, Some(id)) {
                Err(_) => {},
                Ok(name) => match find_saved(m.saved, id) {
                    None => {},
                    Some(i) => {
                        let n = save_spec(m).0;
                        assert(same_ids(m.saved, n.saved));
                        assert forall|x: SavedThemeId| find_saved(m.saved, x) == find_saved(n.saved, x) by {
                            lemma_same_ids_find(m.saved, n.saved, x);
                        }
                        assert forall|k: int| 0 <= k < n.saved.len() implies (#[trigger] n.saved[k]).id.0
                            < n.next_saved_id || n.next_saved_id == u64::MAX by {
                            assert(m.saved[k].id == n.saved[k].id);
                        }
                    },
                },
            }
        },
        _ => {
            match name_check(m.saved, m.draft.name, None) {
                Err(_) => {},
                Ok(name) => {
                    let id = SavedThemeId(m.next_saved_id);
                    let t = SavedModel { id, name, appearance: m.draft.appearance };
                    let pushed = m.saved.push(t);
                    let added = CatalogModel {
                        saved: pushed,
                        next_saved_id: max_u64(saturating_succ(m.next_saved_id), 1),
                        selected: ThemeId::Saved(id),
                        ..m
                    };
                    lemma_some_first(pushed, id, m.saved.len() as int);
                    assert forall|x: SavedThemeId| find_saved(m.saved, x) is Some implies find_saved(
                        pushed,
                        x,
                    ) is Some by {
                        lemma_push_keeps_find(m.saved, t, x);
                    }
                    assert forall|k: int| 0 <= k < pushed.len() implies (#[trigger] pushed[k]).id.0
                        < added.next_saved_id || added.next_saved_id == u64::MAX by {
                        if k < m.saved.len() {
                            assert(pushed[k] == m.saved[k]);
                        }
                    }
                    assert(catalog_wf_but_draft(added));
                    lemma_load_draft_wf(added);
                },
            }
        },
    }
}

/// Settling a pending selection keeps the catalog invariant.
pub proof fn lemma_resolve_wf(m: CatalogModel, decision: DirtyDecision)
    requires
        catalog_wf(m),
    ensures
        catalog_wf(resolve_spec(m, decision).0),
{
    match m.pending {
        None => {},
        Some(target) => match decision {
            DirtyDecision::Cancel => {},
            DirtyDecision::Discard => {
                lemma_load_draft_wf(CatalogModel { selected: target, pending: None, ..m });
            },
            DirtyDecision::Save => {
                lemma_save_wf(m);
                let n = save_spec(m).0;
                lemma_load_draft_wf(CatalogModel { selected: target, pending: None, ..n });
            },
        },
    }
}

impl ThemeCatalog {
    /// Renames the selected saved theme, keeping its identity. Refused while the draft is
    /// dirty, for a built-in theme, and for an invalid or taken name.
    pub fn rename_selected(&mut self, name: &str) -> (r: Result<SavedThemeId, String>)
        requires
            old(self).wf(),
        ensures
            (final(self)@, message_result(r)) == rename_spec(old(self)@, name@),
            final(self).wf(),
    {
        if self.is_dirty() {
            return Err(String::from_str("Save or discard changes before renaming"));
        }
        let id = match self.editing_saved() {
            Some(id) => id,
            None => {
                return Err(String::from_str("Built-in themes cannot be renamed"));
            },
        };
        let n = match self.valid_name(name, Some(id)) {
            Ok(n) => n,
            Err(e) => {
                return Err(e);
            },
        };
        let p = match self.position(id) {
            Some(p) => p,
            None => {
                proof {
                    assert(contains(self@, self@.selected));
                }
                return Err(String::from_str("That theme no longer exists"));
            },
        };
        let appearance = self.saved[p].appearance;
        self.saved.set(p, SavedTheme { id, name: n.clone(), appearance });
        self.draft.name = n;
        self.draft.dirty = false;
        proof {
            let i = find_saved(old(self)@.saved, id)->0;
            assert(i == p as int);
            assert(self@.saved =~= old(self)@.saved.update(
                i,
                SavedModel { name: self@.draft.name, ..old(self)@.saved[i] },
            ));
            assert(same_ids(old(self)@.saved, self@.saved));
            assert forall|x: SavedThemeId| find_saved(old(self)@.saved, x) == find_saved(
                self@.saved,
                x,
            ) by {
                lemma_same_ids_find(old(self)@.saved, self@.saved, x);
            }
            assert forall|k: int| 0 <= k < self@.saved.len() implies (#[trigger] self@.saved[k]).id.0
                < self@.next_saved_id || self@.next_saved_id == u64::MAX by {
                assert(old(self)@.saved[k].id == self@.saved[k].id);
            }
        }
        Ok(id)
    }

    /// Deletes the selected saved theme and falls back to the dark theme. Refused while the
    /// draft is dirty and for a built-in theme.
    pub fn delete_selected(&mut self) -> (r: Result<SavedThemeId, String>)
        requires
            old(self).wf(),
        ensures
            (final(self)@, message_result(r)) == delete_spec(old(self)@),
            final(self).wf(),
    {
        if self.is_dirty() {
            return Err(String::from_str("Save or discard changes before deleting"));
        }
        let id = match self.selected {
            ThemeId::Saved(id) => id,
            ThemeId::BuiltIn(_) => {
                return Err(String::from_str("Built-in themes cannot be deleted"));
            },
        };
        let ghost all = old(self)@.saved;
        let mut kept: Vec<SavedTheme> = Vec::new();
        let mut i: usize = 0;
        while i < self.saved.len()
            invariant
                0 <= i <= self.saved@.len(),
                saved_models(self.saved@) == all,
                saved_models(kept@) == all.subrange(0, i as int).filter(keeps(id)),
            decreases self.saved.len() - i,
        {
            proof {
                assert(all.subrange(0, i + 1) =~= all.subrange(0, i as int).push(all[i as int]));
                all.subrange(0, i as int).lemma_filter_push(all[i as int], keeps(id));
            }
            if self.saved[i].id.0 != id.0 {
                let t = self.saved[i].copy();
                let ghost before = kept@;
                kept.push(t);
                proof {
                    assert(saved_models(kept@) =~= saved_models(before).push(saved_model(t)));
                }
            }
            i = i + 1;
        }
        proof {
            assert(all.subrange(0, i as int) =~= all);
        }
        self.saved = kept;
        self.selected = ThemeId::BuiltIn(BuiltInTheme::Dark);
        self.pending_selection = None;
        proof {
            let n = self@;
            assert forall|k: int| 0 <= k < n.saved.len() implies (#[trigger] n.saved[k]).id.0
                < n.next_saved_id || n.next_saved_id == u64::MAX by {
                assert(all.filter(keeps(id))[k] == n.saved[k]);
                assert(all.filter(keeps(id)).contains(n.saved[k]));
                all.lemma_filter_contains_rev(keeps(id), n.saved[k]);
                let j = choose|j: int| 0 <= j < all.len() && all[j] == n.saved[k];
                assert(all[j].id.0 < old(self)@.next_saved_id || old(self)@.next_saved_id == u64::MAX);
            }
            assert(catalog_wf_but_draft(n));
            lemma_load_draft_wf(n);
        }
        self.load_selected_draft();
        Ok(id)
    }
}


impl Default for ThemeCatalog {
    fn default() -> (c: ThemeCatalog)
        ensures
            c@ == restored(default_theme(), Seq::empty(), 1),
            c.wf(),
    {
        let c = ThemeCatalog::from_persisted(ThemeId::BuiltIn(BuiltInTheme::Dark), Vec::new(), 1);
        assert(saved_models(Seq::<SavedTheme>::empty()) =~= Seq::<SavedModel>::empty());
        c
    }
}

/// Everything the application remembers between runs: the theme catalog and the colour
/// that transparent pixels are laid on when writing JPEG.
#[derive(Clone, Debug, PartialEq, Eq)]
pub struct Preferences {
    pub themes: ThemeCatalog,
    pub jpeg_background: HexColor,
}

impl Default for Preferences {
    fn default() -> (p: Preferences)
        ensures
            p.themes@ == restored(default_theme(), Seq::empty(), 1),
            p.themes.wf(),
            p.jpeg_background == rgb_token(255, 255, 255),
    {
        Preferences { themes: ThemeCatalog::default(), jpeg_background: HexColor::from(RgbColor::white()) }
    }
}

/// The settings as they are stored.
#[derive(Debug)]
pub struct PersistedSettings {
    pub schema_version: u32,
    pub selected_theme: ThemeId,
    pub saved_themes: Vec<SavedTheme>,
    pub next_saved_theme_id: u64,
    pub jpeg_background: HexColor,
}

/// The theme choice of the settings format that kept a single custom theme.
#[derive(Clone, Copy, Debug, PartialEq, Eq, Structural)]
pub enum LegacyThemeMode {
    Light,
    Dark,
    Glass,
    Custom,
    CustomGlass,
}

impl Default for LegacyThemeMode {
    fn default() -> (m: LegacyThemeMode)
        ensures
            m == LegacyThemeMode::Dark,
    {
        LegacyThemeMode::Dark
    }
}

/// The settings format that kept a single custom theme.
#[derive(Clone, Copy, Debug, PartialEq, Eq)]
pub struct LegacySettings {
    pub active_theme: LegacyThemeMode,
    pub custom_tokens: ThemeTokens,
    pub custom_theme_saved: bool,
    pub custom_theme_uses_glass: bool,
    pub jpeg_background: HexColor,
    pub glass_translucency: u8,
    pub glass_blur: u8,
    pub solid_when_inactive: bool,
}

impl Default for LegacySettings {
    fn default() -> (l: LegacySettings)
        ensures
            l == (LegacySettings {
                active_theme: LegacyThemeMode::Dark,
                custom_tokens: dark_tokens(),
                custom_theme_saved: false,
                custom_theme_uses_glass: false,
                jpeg_background: rgb_token(255, 255, 255),
                glass_translucency: DEFAULT_GLASS_TRANSLUCENCY,
                glass_blur: DEFAULT_GLASS_BLUR,
                solid_when_inactive: false,
            }),
    {
        LegacySettings {
            active_theme: LegacyThemeMode::Dark,
            custom_tokens: ThemeTokens::dark(),
            custom_theme_saved: false,
            custom_theme_uses_glass: false,
            jpeg_background: HexColor::from(RgbColor::white()),
            glass_translucency: DEFAULT_GLASS_TRANSLUCENCY,
            glass_blur: DEFAULT_GLASS_BLUR,
            solid_when_inactive: false,
        }
    }
}

/// Whether a stored format version can be read: the current one and the one before it.
pub open spec fn readable_version(v: u32) -> bool {
    v == RGB_SETTINGS_SCHEMA_VERSION || v == SETTINGS_SCHEMA_VERSION
}

/// Whether the legacy settings had a custom theme active.
pub open spec fn legacy_active_custom(l: LegacySettings) -> bool {
    l.active_theme == LegacyThemeMode::Custom || l.active_theme == LegacyThemeMode::CustomGlass
}

/// Whether the migrated custom theme uses glass.
pub open spec fn legacy_custom_is_glass(l: LegacySettings) -> bool {
    match l.active_theme {
        LegacyThemeMode::CustomGlass => true,
        LegacyThemeMode::Custom => false,
        _ => l.custom_theme_uses_glass,
    }
}

/// The built-in theme a legacy choice maps to; custom choices map to dark.
pub open spec fn legacy_builtin(mode: LegacyThemeMode) -> BuiltInTheme {
    match mode {
        LegacyThemeMode::Light => BuiltInTheme::Light,
        LegacyThemeMode::Glass => BuiltInTheme::Glass,
        _ => BuiltInTheme::Dark,
    }
}

/// The saved themes migrated from legacy settings: the custom theme, with identity 1,
/// when it was active or had been saved, and nothing otherwise. Its glass blur is capped
/// at 64 and its translucency at 90.
pub open spec fn legacy_saved(l: LegacySettings) -> Seq<SavedModel> {
    if legacy_active_custom(l) || l.custom_theme_saved {
        let glass = legacy_custom_is_glass(l);
        seq![
            SavedModel {
                id: SavedThemeId(1),
                name: if glass {
                    "My glass"@
                } else {
                    "My theme"@
                },
                appearance: AppearanceSpec {
                    tokens: l.custom_tokens,
                    material: if glass {
                        WindowMaterial::Glass {
                            blur: if l.glass_blur > 64 {
                                64
                            } else {
                                l.glass_blur
                            },
                            translucency: if l.glass_translucency > 90 {
                                90
                            } else {
                                l.glass_translucency
                            },
                            solid_when_inactive: l.solid_when_inactive,
                        }
                    } else {
                        WindowMaterial::Solid
                    },
                },
            },
        ]
    } else {
        Seq::empty()
    }
}

/// The selection migrated from legacy settings.
pub open spec fn legacy_selection(l: LegacySettings) -> ThemeId {
    if legacy_active_custom(l) {
        ThemeId::Saved(SavedThemeId(1))
    } else {
        ThemeId::BuiltIn(legacy_builtin(l.active_theme))
    }
}

proof fn lemma_max_below(saved: Seq<SavedModel>, n: u64)
    requires
        n >= 1,
        forall|k: int| 0 <= k < saved.len() ==> (#[trigger] saved[k]).id.0 < n,
    ensures
        max_saved_id(saved) < n,
    decreases saved.len(),
{
    if saved.len() > 0 {
        assert forall|k: int| 0 <= k < saved.drop_last().len() implies (#[trigger] saved.drop_last()[k]).id.0
            < n by {
            assert(saved.drop_last()[k] == saved[k]);
        }
        lemma_max_below(saved.drop_last(), n);
    }
}

/// Storing a catalog and restoring it gives back the same selection, the same saved themes
/// and the same next identity, with a clean draft of the selection and nothing pending; a
/// catalog without unsaved changes or a pending selection comes back exactly as it was.
pub proof fn lemma_persist_round_trip(m: CatalogModel)
    requires
        catalog_wf(m),
    ensures
        restored(m.selected, m.saved, m.next_saved_id) == load_draft(CatalogModel { pending: None, ..m }),
        !m.draft.dirty && m.pending is None ==> restored(m.selected, m.saved, m.next_saved_id) == m,
{
    if m.next_saved_id < u64::MAX {
        lemma_max_below(m.saved, m.next_saved_id);
    }
}

impl Preferences {
    /// The preferences restored from stored settings, or `None` when their format version
    /// is neither the current one nor the one before it.
    pub fn from_persisted(persisted: PersistedSettings) -> (r: Option<Preferences>)
        ensures
            match r {
                Some(p) => readable_version(persisted.schema_version) && p.themes@ == restored(
                    persisted.selected_theme,
                    saved_models(persisted.saved_themes@),
                    persisted.next_saved_theme_id,
                ) && p.themes.wf() && p.jpeg_background == persisted.jpeg_background,
                None => !readable_version(persisted.schema_version),
            },
    {
        if persisted.schema_version != RGB_SETTINGS_SCHEMA_VERSION && persisted.schema_version
            != SETTINGS_SCHEMA_VERSION {
            return None;
        }
        Some(
            Preferences {
                themes: ThemeCatalog::from_persisted(
                    persisted.selected_theme,
                    persisted.saved_themes,
                    persisted.next_saved_theme_id,
                ),
                jpeg_background: persisted.jpeg_background,
            },
        )
    }

    /// The settings to store, in the current format version.
    pub fn to_persisted(&self) -> (p: PersistedSettings)
        ensures
            p.schema_version == SETTINGS_SCHEMA_VERSION,
            p.selected_theme == self.themes@.selected,
            saved_models(p.saved_themes@) == self.themes@.saved,
            p.next_saved_theme_id == self.themes@.next_saved_id,
            p.jpeg_background == self.jpeg_background,
    {
        let mut saved: Vec<SavedTheme> = Vec::new();
        let mut i: usize = 0;
        while i < self.themes.saved.len()
            invariant
                0 <= i <= self.themes.saved@.len(),
                saved_models(saved@) == saved_models(self.themes.saved@).subrange(0, i as int),
            decreases self.themes.saved.len() - i,
        {
            let t = self.themes.saved[i].copy();
            let ghost before = saved@;
            saved.push(t);
            proof {
                assert(saved_models(before).len() == before.len());
                assert(saved_models(self.themes.saved@).subrange(0, i as int).len() == i);
                assert(before.len() == i);
                assert forall|k: int| 0 <= k < i implies #[trigger] saved_model(saved@[k])
                    == saved_models(self.themes.saved@)[k] by {
                    assert(saved@[k] == before[k]);
                    assert(saved_models(before)[k] == saved_models(self.themes.saved@).subrange(
                        0,
                        i as int,
                    )[k]);
                }
                assert(saved_models(saved@) =~= saved_models(self.themes.saved@).subrange(
                    0,
                    i + 1,
                ));
            }
            i = i + 1;
        }
        assert(saved_models(self.themes.saved@).subrange(0, i as int) =~= saved_models(
            self.themes.saved@,
        ));
        PersistedSettings {
            schema_version: SETTINGS_SCHEMA_VERSION,
            selected_theme: self.themes.selected,
            saved_themes: saved,
            next_saved_theme_id: self.themes.next_saved_id,
            jpeg_background: self.jpeg_background,
        }
    }

    /// The preferences carried over from the settings format that kept a single custom
    /// theme: that theme, when active or saved, becomes saved theme 1 ("My theme", or
    /// "My glass" for glass), and the next identity is 2.
    pub fn migrate_legacy(legacy: LegacySettings) -> (p: Preferences)
        ensures
            p.themes@ == restored(legacy_selection(legacy), legacy_saved(legacy), 2),
            p.themes.wf(),
            p.jpeg_background == legacy.jpeg_background,
    {
        let selected_builtin = match legacy.active_theme {
            LegacyThemeMode::Light => BuiltInTheme::Light,
            LegacyThemeMode::Glass => BuiltInTheme::Glass,
            _ => BuiltInTheme::Dark,
        };
        let active_custom = match legacy.active_theme {
            LegacyThemeMode::Custom | LegacyThemeMode::CustomGlass => true,
            _ => false,
        };
        let custom_is_glass = match legacy.active_theme {
            LegacyThemeMode::CustomGlass => true,
            LegacyThemeMode::Custom => false,
            _ => legacy.custom_theme_uses_glass,
        };
        let mut saved: Vec<SavedTheme> = Vec::new();
        if active_custom || legacy.custom_theme_saved {
            let name = if custom_is_glass {
                String::from_str("My glass")
            } else {
                String::from_str("My theme")
            };
            let material = if custom_is_glass {
                WindowMaterial::Glass {
                    blur: if legacy.glass_blur > 64 {
                        64
                    } else {
                        legacy.glass_blur
                    },
                    translucency: if legacy.glass_translucency > 90 {
                        90
                    } else {
                        legacy.glass_translucency
                    },
                    solid_when_inactive: legacy.solid_when_inactive,
                }
            } else {
                WindowMaterial::Solid
            };
            saved.push(
                SavedTheme {
                    id: SavedThemeId(1),
                    name,
                    appearance: AppearanceSpec { tokens: legacy.custom_tokens, material },
                },
            );
        }
        assert(saved_models(saved@) =~= legacy_saved(legacy));
        let selected = if active_custom {
            ThemeId::Saved(SavedThemeId(1))
        } else {
            ThemeId::BuiltIn(selected_builtin)
        };
        Preferences {
            themes: ThemeCatalog::from_persisted(selected, saved, 2),
            jpeg_background: legacy.jpeg_background,
        }
    }
}


/// No two saved themes share an identity.
pub open spec fn ids_distinct(saved: Seq<SavedModel>) -> bool {
    forall|i: int, j: int| 0 <= i < j < saved.len() ==> (#[trigger] saved[i]).id != (#[trigger] saved[j]).id
}

proof fn lemma_filter_ids_distinct(s: Seq<SavedModel>, p: spec_fn(SavedModel) -> bool)
    requires
        ids_distinct(s),
    ensures
        ids_distinct(s.filter(p)),
    decreases s.len(),
{
    reveal(Seq::filter);
    if s.len() > 0 {
        let init = s.drop_last();
        assert(ids_distinct(init)) by {
            assert forall|i: int, j: int| 0 <= i < j < init.len() implies (#[trigger] init[i]).id
                != (#[trigger] init[j]).id by {
                assert(init[i] == s[i] && init[j] == s[j]);
            }
        }
        lemma_filter_ids_distinct(init, p);
        let f = init.filter(p);
        if p(s.last()) {
            assert forall|i: int, j: int| 0 <= i < j < f.push(s.last()).len() implies (#[trigger] f.push(
                s.last(),
            )[i]).id != (#[trigger] f.push(s.last())[j]).id by {
                if j == f.len() {
                    assert(f.contains(f[i]));
                    init.lemma_filter_contains_rev(p, f[i]);
                    let k = choose|k: int| 0 <= k < init.len() && init[k] == f[i];
                    assert(s[k] == init[k]);
                    assert(s[k].id != s[s.len() - 1].id);
                }
            }
        }
    }
}

/// Saved themes keep distinct identities through every change of the catalog while
/// identities remain: saving a new theme gives it an identity no saved theme has, updating
/// or renaming keeps every identity, and deleting only removes themes.
pub proof fn lemma_ids_stay_distinct(m: CatalogModel, name: Seq<char>)
    requires
        catalog_wf(m),
        ids_distinct(m.saved),
        m.next_saved_id < u64::MAX,
    ensures
        ids_distinct(save_spec(m).0.saved),
        ids_distinct(rename_spec(m, name).0.saved),
        ids_distinct(delete_spec(m).0.saved),
{
    let n = save_spec(m).0;
    match m.draft.origin {
        DraftOrigin::Selected(ThemeId::Saved(id)) => {
            if let Ok(t) = name_check(m.saved, m.draft.name, Some(id)) {
                if let Some(i) = find_saved(m.saved, id) {
                    assert forall|a: int, b: int| 0 <= a < b < n.saved.len() implies (#[trigger] n.saved[a]).id
                        != (#[trigger] n.saved[b]).id by {
                        assert(n.saved[a].id == m.saved[a].id && n.saved[b].id == m.saved[b].id);
                    }
                }
            }
        },
        _ => {
            if let Ok(t) = name_check(m.saved, m.draft.name, None) {
                let added = m.saved.push(
                    SavedModel {
                        id: SavedThemeId(m.next_saved_id),
                        name: t,
                        appearance: m.draft.appearance,
                    },
                );
                assert(n.saved == added);
                assert forall|a: int, b: int| 0 <= a < b < added.len() implies (#[trigger] added[a]).id
                    != (#[trigger] added[b]).id by {
                    if b == m.saved.len() {
                        assert(added[a] == m.saved[a]);
                        assert(m.saved[a].id.0 < m.next_saved_id);
                    } else {
                        assert(added[a] == m.saved[a] && added[b] == m.saved[b]);
                    }
                }
            }
        },
    }
    let r = rename_spec(m, name).0;
    assert forall|a: int, b: int| 0 <= a < b < r.saved.len() implies (#[trigger] r.saved[a]).id
        != (#[trigger] r.saved[b]).id by {
        if !m.draft.dirty && editing_saved_spec(m) is Some {
            let id = editing_saved_spec(m)->0;
            if name_check(m.saved, name, Some(id)) is Ok {
                assert(r.saved.len() == m.saved.len());
                assert(r.saved[a].id == m.saved[a].id && r.saved[b].id == m.saved[b].id);
            }
        }
    }
    if !m.draft.dirty {
        if let ThemeId::Saved(id) = m.selected {
            lemma_filter_ids_distinct(m.saved, keeps(id));
        }
    }
}


/// Asking for another theme while the draft has unsaved changes only records the request;
/// cancelling then leaves the catalog as it was, discarding switches with a clean draft, and
/// saving switches only once the draft has been stored.
pub proof fn lemma_guarded_navigation(m: CatalogModel, id: ThemeId)
    requires
        m.draft.dirty,
        contains(m, id),
        m.draft.origin != DraftOrigin::Selected(id),
        m.pending is None,
    ensures
        request_spec(m, id) == (CatalogModel { pending: Some(id), ..m }, Ok::<bool, Seq<char>>(false)),
        resolve_spec(request_spec(m, id).0, DirtyDecision::Cancel) == (m, Ok::<bool, Seq<char>>(false)),
        resolve_spec(request_spec(m, id).0, DirtyDecision::Discard) == (select_now(m, id), Ok::<
            bool,
            Seq<char>,
        >(true)),
        save_spec(m).1 is Ok ==> resolve_spec(request_spec(m, id).0, DirtyDecision::Save).0
            == select_now(save_spec(m).0, id),
        save_spec(m).1 is Err ==> resolve_spec(request_spec(m, id).0, DirtyDecision::Save).0
            == request_spec(m, id).0,
{
    let p = CatalogModel { pending: Some(id), ..m };
    assert(CatalogModel { pending: None, ..p } == m);
    assert(save_spec(p).1 == save_spec(m).1);
    assert(select_now(p, id) == select_now(m, id));
    if save_spec(m).1 is Ok {
        assert(select_now(save_spec(p).0, id) == select_now(save_spec(m).0, id));
    }
}


/// The saved theme being edited is the selected one unless a new theme is being created,
/// and a draft without unsaved changes is never a new theme.
pub proof fn lemma_editing_saved(m: CatalogModel)
    requires
        catalog_wf(m),
    ensures
        forall|id: SavedThemeId|
            editing_saved_spec(m) == Some(id) <==> (m.draft.origin != DraftOrigin::New
                && m.selected == ThemeId::Saved(id)),
        !m.draft.dirty ==> m.draft.origin != DraftOrigin::New,
{
}

/// Discarding after edits that touched only the draft (starting a new theme, renaming or
/// restyling the draft, a pending selection) gives back the catalog as it was before them,
/// when it had no unsaved changes and nothing pending.
pub proof fn lemma_discard_restores(before: CatalogModel, edited: CatalogModel)
    requires
        catalog_wf(before),
        !before.draft.dirty,
        before.pending is None,
        edited.selected == before.selected,
        edited.saved == before.saved,
        edited.next_saved_id == before.next_saved_id,
    ensures
        load_draft(CatalogModel { pending: None, ..edited }) == before,
{
}

}
