//! What a prompt is rendered for: the shell, the terminal, the table of
//! builtin modules and the user's configuration.

use vstd::prelude::*;
use crate::text::{contains_text, has_prefix, same_text, views_of};

verus! {

/// The shell whose prompt is rendered.
#[derive(Clone, Copy, Debug, PartialEq, Eq, Structural)]
pub enum Shell {
    Bash,
    Fish,
    Ion,
    PowerShell,
    Zsh,
    Elvish,
    Tcsh,
    Unknown,
}

/// The builtin modules: every identifier that names one, and the order in
/// which the wildcard shows them.
pub struct ModuleTable {
    pub all_modules: Vec<String>,
    pub prompt_order: Vec<String>,
}

/// The definition of a custom module in the configuration.
pub struct CustomModule {
    pub id: String,
    pub disabled: bool,
}

/// The part of the user's configuration that composition depends on.
pub struct Config {
    /// Whether a blank line precedes the prompt.
    pub add_newline: bool,
    /// The builtin modules that are switched off.
    pub disabled: Vec<String>,
    /// The custom modules that are defined, in the configuration's order;
    /// `None` where the configuration has no custom modules at all.
    pub custom: Option<Vec<CustomModule>>,
}

/// Everything one rendering of the prompt depends on.
pub struct Context {
    pub shell: Shell,
    /// Whether the terminal cannot show control sequences.
    pub term_is_dumb: bool,
    pub modules: ModuleTable,
    pub config: Config,
}

/// Whether the first definition with the given id, among those before index
/// `upto`, is switched off; `None` where none of them has that id.
pub open spec fn custom_disabled_among(defs: Seq<CustomModule>, upto: int, id: Seq<char>) -> Option<
    bool,
>
    decreases upto,
{
    if upto <= 0 {
        None
    } else {
        match custom_disabled_among(defs, upto - 1, id) {
            Some(disabled) => Some(disabled),
            None => if defs[upto - 1].id@ == id {
                Some(defs[upto - 1].disabled)
            } else {
                None
            },
        }
    }
}

impl ModuleTable {
    /// No builtin module goes by a name that the template language keeps for
    /// itself: the words `all` and `custom`, and anything that begins with
    /// `custom.`. The fixed order names builtin modules and the word `custom`
    /// only.
    pub open spec fn well_formed(&self) -> bool {
        &&& forall|i: int|
            0 <= i < self.all_modules@.len() ==> {
                let name = (#[trigger] self.all_modules@[i])@;
                name != "all"@ && name != "custom"@ && !has_prefix(name, "custom."@)
            }
        &&& forall|i: int|
            0 <= i < self.prompt_order@.len() ==> {
                let name = (#[trigger] self.prompt_order@[i])@;
                name == "custom"@ || views_of(self.all_modules@).contains(name)
            }
    }
}

/// Whether a module is switched off, given what the configuration says of
/// it: it is where the setting is present and true, and is not where the
/// setting is false, missing or no truth value.
pub fn disabled_from_setting(setting: Option<bool>) -> (disabled: bool)
    ensures
        disabled <==> setting == Some(true),
{
    match setting {
        Some(value) => value,
        None => false,
    }
}

impl CustomModule {
    /// The definition of the custom module `id`, given what the
    /// configuration says of its being switched off.
    pub fn from_setting(id: String, setting: Option<bool>) -> (definition: Self)
        ensures
            definition.id == id,
            definition.disabled <==> setting == Some(true),
    {
        CustomModule { id, disabled: disabled_from_setting(setting) }
    }
}

impl Config {
    /// No two custom modules are defined under the same id.
    pub open spec fn well_formed(&self) -> bool {
        match self.custom {
            Some(definitions) => forall|i: int, j: int|
                0 <= i < j < definitions@.len() ==> definitions@[i].id@ != definitions@[j].id@,
            None => true,
        }
    }
}

impl Context {
    /// The table of builtin modules and the configuration are both well
    /// formed.
    pub open spec fn well_formed(&self) -> bool {
        self.modules.well_formed() && self.config.well_formed()
    }

    /// Whether `name` is the identifier of a builtin module.
    pub open spec fn is_builtin(&self, name: Seq<char>) -> bool {
        views_of(self.modules.all_modules@).contains(name)
    }

    /// Whether the configuration switches the builtin module `name` off.
    pub open spec fn module_disabled(&self, name: Seq<char>) -> bool {
        views_of(self.config.disabled@).contains(name)
    }

    /// Whether the configuration switches the custom module `id` off; `None`
    /// where it does not define that module.
    pub open spec fn custom_module_disabled(&self, id: Seq<char>) -> Option<bool> {
        match self.config.custom {
            Some(defs) => custom_disabled_among(defs@, defs@.len() as int, id),
            None => None,
        }
    }

    /// Whether `name` is the identifier of a builtin module.
    pub fn is_builtin_module(&self, name: &str) -> (builtin: bool)
        ensures
            builtin == self.is_builtin(name@),
    {
        contains_text(&self.modules.all_modules, name)
    }

    /// Whether the configuration switches the builtin module `name` off.
    pub fn is_module_disabled_in_config(&self, name: &str) -> (disabled: bool)
        ensures
            disabled == self.module_disabled(name@),
    {
        contains_text(&self.config.disabled, name)
    }

    /// Whether the configuration switches the custom module `id` off; `None`
    /// where it does not define that module.
    pub fn is_custom_module_disabled_in_config(&self, id: &str) -> (disabled: Option<bool>)
        ensures
            disabled == self.custom_module_disabled(id@),
    {
        match &self.config.custom {
            Some(defs) => {
                let mut i: usize = 0;
                while i < defs.len()
                    invariant
                        i <= defs.len(),
                        self.config.custom == Some(*defs),
                        custom_disabled_among(defs@, i as int, id@) is None,
                    decreases defs.len() - i,
                {
                    if same_text(defs[i].id.as_str(), id) {
                        proof {
                            lemma_first_definition_decides(defs@, i as int, defs@.len() as int, id@);
                        }
                        return Some(defs[i].disabled);
                    }
                    i += 1;
                }
                None
            },
            None => None,
        }
    }
}

/// A definition with the given id that no earlier one precedes decides the
/// answer, however many definitions follow.
pub proof fn lemma_first_definition_decides(
    defs: Seq<CustomModule>,
    first: int,
    upto: int,
    id: Seq<char>,
)
    requires
        0 <= first < upto <= defs.len(),
        custom_disabled_among(defs, first, id) is None,
        defs[first].id@ == id,
    ensures
        custom_disabled_among(defs, upto, id) == Some(defs[first].disabled),
    decreases upto,
{
    if upto > first + 1 {
        lemma_first_definition_decides(defs, first, upto - 1, id);
    }
}

/// Where no earlier definition has the given id, none decides the answer.
pub proof fn lemma_no_definition_decides(defs: Seq<CustomModule>, upto: int, id: Seq<char>)
    requires
        0 <= upto <= defs.len(),
        forall|i: int| 0 <= i < upto ==> defs[i].id@ != id,
    ensures
        custom_disabled_among(defs, upto, id) is None,
    decreases upto,
{
    if upto > 0 {
        lemma_no_definition_decides(defs, upto - 1, id);
    }
}

} // verus!
