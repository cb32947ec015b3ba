//! Classification of a single activity sample by ordered keyword rules.

use vstd::prelude::*;
use vstd::string::StringExecFns;

verus! {

/// The behavioural category of a sample or a session.
#[derive(Debug, Clone, Copy, PartialEq, Eq, Structural)]
pub enum Category {
    Productive,
    Neutral,
    Recovery,
    Distracting,
    Idle,
}

/// The stored name of each category.
pub open spec fn category_name(c: Category) -> Seq<char> {
    match c {
        Category::Productive => "productive"@,
        Category::Neutral => "neutral"@,
        Category::Recovery => "recovery"@,
        Category::Distracting => "distracting"@,
        Category::Idle => "idle"@,
    }
}

/// The category whose stored name is `name`, if any.
pub open spec fn category_named(name: Seq<char>) -> Option<Category> {
    if name == "productive"@ {
        Some(Category::Productive)
    } else if name == "neutral"@ {
        Some(Category::Neutral)
    } else if name == "recovery"@ {
        Some(Category::Recovery)
    } else if name == "distracting"@ {
        Some(Category::Distracting)
    } else if name == "idle"@ {
        Some(Category::Idle)
    } else {
        None
    }
}

/// `needle` occurs in `hay` as a contiguous run of characters.
pub open spec fn occurs_in(needle: Seq<char>, hay: Seq<char>) -> bool {
    exists|j: int|
        0 <= j && j + needle.len() <= hay.len() && #[trigger] hay.subrange(j, j + needle.len())
            == needle
}

/// Some keyword of `keywords` occurs in the application name or in the window title.
pub open spec fn any_keyword_in(app: Seq<char>, title: Seq<char>, keywords: Seq<Seq<char>>) -> bool {
    exists|j: int|
        0 <= j < keywords.len() && (occurs_in(#[trigger] keywords[j], app) || occurs_in(
            keywords[j],
            title,
        ))
}

/// The category of an active (non-idle) sample whose names are already lower-cased.
pub open spec fn category_of_lowered(app: Seq<char>, title: Seq<char>, rules: RulesModel) -> Category {
    if any_keyword_in(app, title, rules.distracting) {
        Category::Distracting
    } else if any_keyword_in(app, title, rules.productive) {
        Category::Productive
    } else if any_keyword_in(app, title, rules.recovery) {
        Category::Recovery
    } else {
        Category::Neutral
    }
}

/// The category of a sample: idle first, then the keyword lists on the lower-cased names.
pub open spec fn category_of(app: Seq<char>, title: Seq<char>, is_idle: bool, rules: RulesModel) -> Category {
    if is_idle {
        Category::Idle
    } else {
        category_of_lowered(lower_of(app), lower_of(title), rules)
    }
}

/// What `str::to_lowercase` returns for a string.
pub uninterp spec fn lower_of(s: Seq<char>) -> Seq<char>;

/// Relies on `str::to_lowercase`: the lower-case form depends on the characters alone.
#[verifier::external_body]
fn lowercase(s: &str) -> (r: String)
    ensures
        r@ == lower_of(s@),
{
    s.to_lowercase()
}

/// Relies on `str::contains` with a `&str` pattern: true exactly when `needle`
/// matches a sub-slice of `hay`.
#[verifier::external_body]
fn has_substring(hay: &str, needle: &str) -> (r: bool)
    ensures
        r == occurs_in(needle@, hay@),
{
    hay.contains(needle)
}

/// The three ordered keyword lists, as sequences of character sequences.
pub struct RulesModel {
    pub distracting: Seq<Seq<char>>,
    pub productive: Seq<Seq<char>>,
    pub recovery: Seq<Seq<char>>,
}

/// The keyword lists that drive classification.
pub struct CategoryRules {
    pub distracting: Vec<String>,
    pub productive: Vec<String>,
    pub recovery: Vec<String>,
}

/// The built-in rule set used when no configuration can be read.
pub open spec fn default_rules_model() -> RulesModel {
    RulesModel {
        distracting: seq!["game"@, "netflix"@],
        productive: seq!["code"@, "terminal"@],
        recovery: seq!["music"@],
    }
}

impl Default for CategoryRules {
    fn default() -> (r: CategoryRules)
        ensures
            r.model() == default_rules_model(),
    {
        let mut distracting: Vec<String> = Vec::new();
        distracting.push(String::from_str("game"));
        distracting.push(String::from_str("netflix"));
        let mut productive: Vec<String> = Vec::new();
        productive.push(String::from_str("code"));
        productive.push(String::from_str("terminal"));
        let mut recovery: Vec<String> = Vec::new();
        recovery.push(String::from_str("music"));
        let r = CategoryRules { distracting, productive, recovery };
        assert(r.model().distracting =~= default_rules_model().distracting);
        assert(r.model().productive =~= default_rules_model().productive);
        assert(r.model().recovery =~= default_rules_model().recovery);
        r
    }
}

impl CategoryRules {
    /// The configured rules when they could be read, else the built-in defaults.
    pub fn or_default(loaded: Option<CategoryRules>) -> (r: CategoryRules)
        ensures
            loaded is Some ==> r == loaded->Some_0,
            loaded is None ==> r.model() == default_rules_model(),
    {
        match loaded {
            Some(rules) => rules,
            None => CategoryRules::default(),
        }
    }

    /// The keyword lists as character sequences.
    pub open spec fn model(&self) -> RulesModel {
        RulesModel {
            distracting: self.distracting.deep_view(),
            productive: self.productive.deep_view(),
            recovery: self.recovery.deep_view(),
        }
    }
}

/// Whether some keyword of `keywords` occurs in `app` or in `title`.
fn matches_any(app: &str, title: &str, keywords: &Vec<String>) -> (r: bool)
    ensures
        r == any_keyword_in(app@, title@, keywords.deep_view()),
{
    let ghost kws = keywords.deep_view();
    let mut i: usize = 0;
    while i < keywords.len()
        invariant
            0 <= i <= keywords.len(),
            kws == keywords.deep_view(),
            kws.len() == keywords.len(),
            forall|j: int|
                0 <= j < i ==> !(occurs_in(#[trigger] kws[j], app@) || occurs_in(kws[j], title@)),
        decreases keywords.len() - i,
    {
        let k = keywords[i].as_str();
        assert(kws[i as int] == k@);
        if has_substring(app, k) || has_substring(title, k) {
            return true;
        }
        i += 1;
    }
    false
}

impl Category {
    /// The stored name of the category.
    pub fn as_str(&self) -> (r: &'static str)
        ensures
            r@ == category_name(*self),
    {
        match self {
            Category::Productive => "productive",
            Category::Neutral => "neutral",
            Category::Recovery => "recovery",
            Category::Distracting => "distracting",
            Category::Idle => "idle",
        }
    }

    /// The category stored under `name`, if any.
    pub fn from_name(name: &str) -> (r: Option<Category>)
        ensures
            r == category_named(name@),
    {
        let n = String::from_str(name);
        if n == String::from_str("productive") {
            Some(Category::Productive)
        } else if n == String::from_str("neutral") {
            Some(Category::Neutral)
        } else if n == String::from_str("recovery") {
            Some(Category::Recovery)
        } else if n == String::from_str("distracting") {
            Some(Category::Distracting)
        } else if n == String::from_str("idle") {
            Some(Category::Idle)
        } else {
            None
        }
    }

    /// Classifies a sample whose application name and window title are already
    /// lower-cased: the distracting list first, then productive, then recovery.
    pub fn classify_lowered(app: &str, title: &str, rules: &CategoryRules) -> (r: Category)
        ensures
            r == category_of_lowered(app@, title@, rules.model()),
    {
        if matches_any(app, title, &rules.distracting) {
            Category::Distracting
        } else if matches_any(app, title, &rules.productive) {
            Category::Productive
        } else if matches_any(app, title, &rules.recovery) {
            Category::Recovery
        } else {
            Category::Neutral
        }
    }

    /// Classifies a sample: an idle sample is `Idle` whatever it shows; otherwise
    /// the keyword rules apply to the lower-cased names.
    pub fn classify(app_name: &str, window_title: &str, is_idle: bool, rules: &CategoryRules) -> (r:
        Category)
        ensures
            r == category_of(app_name@, window_title@, is_idle, rules.model()),
            is_idle ==> r == Category::Idle,
    {
        if is_idle {
            return Category::Idle;
        }
        let app = lowercase(app_name);
        let title = lowercase(window_title);
        Category::classify_lowered(app.as_str(), title.as_str(), rules)
    }
}

} // verus!
