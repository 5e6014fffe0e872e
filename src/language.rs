//! A repository's dominant language and the icon shown for a language.
use vstd::prelude::*;

verus! {

/// The lowercase form of a text, as `str::to_lowercase` gives it.
pub uninterp spec fn lower_of(s: Seq<char>) -> Seq<char>;

/// Relies on `str::to_lowercase`: the result depends on the characters alone,
/// and an empty text stays empty.
#[verifier::external_body]
fn lowercase(s: &str) -> (r: String)
    ensures
        r@ == lower_of(s@),
        s@.len() == 0 ==> r@.len() == 0,
{
    s.to_lowercase()
}

/// The icon name for a language name that is already in lowercase.
pub open spec fn icon_name(lower: Seq<char>) -> Seq<char> {
    if lower == "javascript"@ {
        "javascript"@
    } else if lower == "python"@ {
        "python"@
    } else if lower == "rust"@ {
        "rust"@
    } else if lower == "java"@ {
        "java"@
    } else if lower == "c++"@ {
        "c++"@
    } else if lower == "c#"@ {
        "c#"@
    } else if lower == "c"@ {
        "c"@
    } else if lower == "dart"@ {
        "dart"@
    } else if lower == "go"@ {
        "go"@
    } else if lower == "php"@ {
        "php"@
    } else if lower == "zig"@ {
        "zig"@
    } else if lower == "swift"@ {
        "swift"@
    } else if lower == "typescript"@ {
        "typescript"@
    } else if lower == "kotlin"@ {
        "kotlin"@
    } else if lower == "json"@ {
        "json"@
    } else if lower == "sass"@ {
        "sass"@
    } else if lower == "markdown"@ {
        "markdown"@
    } else if lower == "objective-c"@ {
        "oc"@
    } else if lower == "css"@ {
        "css"@
    } else {
        "default"@
    }
}

/// Whether `s` reads `lit`.
fn is_text(s: &String, lit: &str) -> (r: bool)
    ensures
        r == (s@ == lit@),
{
    let t = lit.to_string();
    *s == t
}

/// The icon name for a language name given in lowercase.
pub fn icon_for_lowercase(lower: &String) -> (r: String)
    ensures
        r@ == icon_name(lower@),
{
    if is_text(lower, "javascript") {
        "javascript".to_string()
    } else if is_text(lower, "python") {
        "python".to_string()
    } else if is_text(lower, "rust") {
        "rust".to_string()
    } else if is_text(lower, "java") {
        "java".to_string()
    } else if is_text(lower, "c++") {
        "c++".to_string()
    } else if is_text(lower, "c#") {
        "c#".to_string()
    } else if is_text(lower, "c") {
        "c".to_string()
    } else if is_text(lower, "dart") {
        "dart".to_string()
    } else if is_text(lower, "go") {
        "go".to_string()
    } else if is_text(lower, "php") {
        "php".to_string()
    } else if is_text(lower, "zig") {
        "zig".to_string()
    } else if is_text(lower, "swift") {
        "swift".to_string()
    } else if is_text(lower, "typescript") {
        "typescript".to_string()
    } else if is_text(lower, "kotlin") {
        "kotlin".to_string()
    } else if is_text(lower, "json") {
        "json".to_string()
    } else if is_text(lower, "sass") {
        "sass".to_string()
    } else if is_text(lower, "markdown") {
        "markdown".to_string()
    } else if is_text(lower, "objective-c") {
        "oc".to_string()
    } else if is_text(lower, "css") {
        "css".to_string()
    } else {
        "default".to_string()
    }
}

/// The icon name for a language, whatever the case of its name.
pub fn get_language_icon(language: &str) -> (r: String)
    ensures
        r@ == icon_name(lower_of(language@)),
{
    let lower = lowercase(language);
    icon_for_lowercase(&lower)
}

/// Lines of code counted for one language.
#[derive(Clone, Debug)]
pub struct LanguageCount {
    pub name: String,
    pub code: usize,
}

/// The index of the last entry with the most lines of code; -1 when there
/// is none.
pub open spec fn dominant_index(stats: Seq<LanguageCount>) -> int
    decreases stats.len(),
{
    if stats.len() == 0 {
        -1
    } else {
        let j = dominant_index(stats.drop_last());
        if j < 0 || stats.last().code >= stats[j].code {
            stats.len() - 1
        } else {
            j
        }
    }
}

proof fn lemma_dominant_index_in_range(stats: Seq<LanguageCount>)
    ensures
        stats.len() == 0 ==> dominant_index(stats) == -1,
        stats.len() > 0 ==> 0 <= dominant_index(stats) < stats.len(),
    decreases stats.len(),
{
    if stats.len() > 0 {
        lemma_dominant_index_in_range(stats.drop_last());
    }
}

/// The language with the most lines of code (the last such one on a tie)
/// and its count cut to 32 bits; `("unknown", 0)` when nothing was counted.
pub fn dominant_language(stats: &Vec<LanguageCount>) -> (r: (String, u32))
    ensures
        stats@.len() == 0 ==> r.0@ == "unknown"@ && r.1 == 0,
        stats@.len() > 0 ==> r.0@ == stats@[dominant_index(stats@)].name@ && r.1
            == stats@[dominant_index(stats@)].code as u32,
{
    if stats.len() == 0 {
        return ("unknown".to_string(), 0);
    }
    let mut best: usize = 0;
    let mut i: usize = 1;
    assert(stats@.take(1).drop_last() =~= stats@.take(0));
    assert(dominant_index(stats@.take(0)) == -1);
    while i < stats.len()
        invariant
            1 <= i <= stats.len(),
            best < i,
            best == dominant_index(stats@.take(i as int)),
        decreases stats.len() - i,
    {
        assert(stats@.take(i + 1).drop_last() =~= stats@.take(i as int));
        assert(stats@.take(i as int)[best as int] == stats@[best as int]);
        if stats[i].code >= stats[best].code {
            best = i;
        }
        i = i + 1;
    }
    assert(stats@.take(stats.len() as int) =~= stats@);
    let count: u32 = #[verifier::truncate] (stats[best].code as u32);
    (stats[best].name.clone(), count)
}

/// Works out a repository's dominant language.
pub struct LanguageAnalyzer {
    repo_path: String,
}

impl LanguageAnalyzer {
    pub fn new(repo_path: &str) -> (r: Self)
        ensures
            r.repo_path()@ == repo_path@,
    {
        LanguageAnalyzer { repo_path: repo_path.to_string() }
    }

    pub closed spec fn repo_path(&self) -> String {
        self.repo_path
    }

    /// The repository's directory.
    pub fn path(&self) -> (r: &String)
        ensures
            r == self.repo_path(),
    {
        &self.repo_path
    }
}

} // verus!
