use vstd::prelude::*;
use vstd::string::*;
use crate::text::{contains_text, has_infix, lower_of, lowercase, same_text};

verus! {

/// The trending-page language filter for a lowercased primary language.
pub open spec fn language_for(lowered: Seq<char>) -> Seq<char> {
    if lowered == "python"@ {
        "python"@
    } else if lowered == "javascript"@ || lowered == "typescript"@ {
        "javascript"@
    } else if lowered == "java"@ {
        "java"@
    } else if lowered == "go"@ {
        "go"@
    } else if lowered == "ruby"@ {
        "ruby"@
    } else {
        "all"@
    }
}

/// The language filter for a primary language that is already lowercase.
pub fn pick_language(lowered: &str) -> (r: String)
    ensures
        r@ == language_for(lowered@),
{
    if same_text(lowered, "python") {
        String::from_str("python")
    } else if same_text(lowered, "javascript") || same_text(lowered, "typescript") {
        String::from_str("javascript")
    } else if same_text(lowered, "java") {
        String::from_str("java")
    } else if same_text(lowered, "go") {
        String::from_str("go")
    } else if same_text(lowered, "ruby") {
        String::from_str("ruby")
    } else {
        String::from_str("all")
    }
}

/// The language filter for a project's primary language, in any case.
pub fn trending_language(primary_language: &str) -> (r: String)
    ensures
        r@ == language_for(lower_of(primary_language@)),
{
    let lowered = lowercase(primary_language);
    pick_language(lowered.as_str())
}

/// The address of the trending page for a language filter.
pub open spec fn trending_url_text(language: Seq<char>) -> Seq<char> {
    if language == "all"@ {
        "https://github.com/trending"@
    } else {
        "https://github.com/trending?language="@ + language
    }
}

/// The address of the trending page for a language filter.
pub fn trending_url(language: &str) -> (r: String)
    ensures
        r@ == trending_url_text(language@),
{
    if same_text(language, "all") {
        String::from_str("https://github.com/trending")
    } else {
        let mut url = String::from_str("https://github.com/trending?language=");
        url.append(language);
        url
    }
}

/// One trending heading, lowercased, against the stack and the lowercase
/// forms of its entries: a Python stack gains Django, a JavaScript stack
/// TypeScript, a Java stack Spring, when the heading names it and the stack
/// does not hold it yet.
pub open spec fn refine_step(
    stack: Seq<Seq<char>>,
    lowered: Seq<Seq<char>>,
    language: Seq<char>,
    text: Seq<char>,
) -> (Seq<Seq<char>>, Seq<Seq<char>>) {
    if language == "python"@ && has_infix(text, "django"@) && !lowered.contains("django"@) {
        (stack.push("Django"@), lowered.push("django"@))
    } else if language == "javascript"@ && has_infix(text, "typescript"@) && !lowered.contains(
        "typescript"@,
    ) {
        (stack.push("TypeScript"@), lowered.push("typescript"@))
    } else if language == "java"@ && has_infix(text, "spring"@) && !lowered.contains("spring"@) {
        (stack.push("Spring"@), lowered.push("spring"@))
    } else {
        (stack, lowered)
    }
}

/// The stack and its lowercase forms after the lowercased headings, in order.
pub open spec fn refine(
    stack: Seq<Seq<char>>,
    lowered: Seq<Seq<char>>,
    language: Seq<char>,
    headings: Seq<Seq<char>>,
) -> (Seq<Seq<char>>, Seq<Seq<char>>)
    decreases headings.len(),
{
    if headings.len() == 0 {
        (stack, lowered)
    } else {
        let (s, l) = refine(stack, lowered, language, headings.drop_last());
        refine_step(s, l, language, headings.last())
    }
}

/// The texts of a list of strings.
pub open spec fn texts(v: Seq<String>) -> Seq<Seq<char>> {
    v.map_values(|s: String| s@)
}

/// The lowercase forms of a list of texts.
pub open spec fn lowered_all(v: Seq<Seq<char>>) -> Seq<Seq<char>> {
    v.map_values(|t: Seq<char>| lower_of(t))
}

/// Whether the list holds the text `name`.
fn holds_text(v: &Vec<String>, name: &str) -> (r: bool)
    ensures
        r == texts(v@).contains(name@),
{
    let mut i: usize = 0;
    while i < v.len()
        invariant
            i <= v@.len(),
            forall|k: int| 0 <= k < i ==> texts(v@)[k] != name@,
        decreases v@.len() - i,
    {
        if same_text(v[i].as_str(), name) {
            assert(texts(v@)[i as int] == name@);
            return true;
        }
        i = i + 1;
    }
    false
}

/// The tech stack refined by the trending headings, given the lowercase forms
/// of the stack's entries and the headings already lowercased.
pub fn refine_lowered(
    tech_stack: &Vec<String>,
    lowered_stack: &Vec<String>,
    language: &str,
    lowered_headings: &Vec<String>,
) -> (r: Vec<String>)
    ensures
        texts(r@) == refine(
            texts(tech_stack@),
            texts(lowered_stack@),
            language@,
            texts(lowered_headings@),
        ).0,
{
    let mut stack = tech_stack.clone();
    let mut lowered = lowered_stack.clone();
    proof {
        assert(stack@ =~= tech_stack@) by {
            assert forall|k: int| 0 <= k < tech_stack@.len() implies stack@[k] == tech_stack@[k] by {}
        }
        assert(lowered@ =~= lowered_stack@) by {
            assert forall|k: int| 0 <= k < lowered_stack@.len() implies lowered@[k]
                == lowered_stack@[k] by {}
        }
    }
    let python = same_text(language, "python");
    let javascript = same_text(language, "javascript");
    let java = same_text(language, "java");
    let mut i: usize = 0;
    while i < lowered_headings.len()
        invariant
            i <= lowered_headings@.len(),
            python == (language@ == "python"@),
            javascript == (language@ == "javascript"@),
            java == (language@ == "java"@),
            (texts(stack@), texts(lowered@)) == refine(
                texts(tech_stack@),
                texts(lowered_stack@),
                language@,
                texts(lowered_headings@).subrange(0, i as int),
            ),
        decreases lowered_headings@.len() - i,
    {
        let text = lowered_headings[i].as_str();
        let ghost s0 = texts(stack@);
        let ghost l0 = texts(lowered@);
        if python && contains_text(text, "django") && !holds_text(&lowered, "django") {
            stack.push(String::from_str("Django"));
            lowered.push(String::from_str("django"));
        } else if javascript && contains_text(text, "typescript") && !holds_text(
            &lowered,
            "typescript",
        ) {
            stack.push(String::from_str("TypeScript"));
            lowered.push(String::from_str("typescript"));
        } else if java && contains_text(text, "spring") && !holds_text(&lowered, "spring") {
            stack.push(String::from_str("Spring"));
            lowered.push(String::from_str("spring"));
        }
        proof {
            let hs = texts(lowered_headings@).subrange(0, i + 1);
            assert(hs.drop_last() =~= texts(lowered_headings@).subrange(0, i as int));
            assert(hs.last() == lowered_headings@[i as int]@);
            let next = refine_step(s0, l0, language@, text@);
            assert(texts(stack@) =~= next.0);
            assert(texts(lowered@) =~= next.1);
        }
        i = i + 1;
    }
    assert(texts(lowered_headings@).subrange(0, lowered_headings@.len() as int) =~= texts(
        lowered_headings@,
    ));
    stack
}

/// The lowercase forms of a list of strings.
fn lower_all(v: &Vec<String>) -> (r: Vec<String>)
    ensures
        texts(r@) == lowered_all(texts(v@)),
{
    let mut out: Vec<String> = Vec::new();
    let mut i: usize = 0;
    while i < v.len()
        invariant
            i <= v@.len(),
            out@.len() == i,
            texts(out@) == lowered_all(texts(v@)).subrange(0, i as int),
        decreases v@.len() - i,
    {
        let ghost before = out@;
        let l = lowercase(v[i].as_str());
        out.push(l);
        proof {
            assert(out@ == before.push(l));
            assert forall|k: int| 0 <= k <= i implies texts(out@)[k] == lowered_all(texts(v@)).subrange(
                0,
                i + 1,
            )[k] by {
                if k < i {
                    assert(texts(out@)[k] == texts(before)[k]);
                }
            }
            assert(texts(out@) =~= lowered_all(texts(v@)).subrange(0, i + 1));
        }
        i = i + 1;
    }
    assert(lowered_all(texts(v@)).subrange(0, v@.len() as int) =~= lowered_all(texts(v@)));
    out
}

/// The tech stack refined by the headings of the trending page: each heading,
/// lowercased, may add the framework its language is known for.
pub fn refine_tech_stack(tech_stack: &Vec<String>, language: &str, headings: &Vec<String>) -> (r:
    Vec<String>)
    ensures
        texts(r@) == refine(
            texts(tech_stack@),
            lowered_all(texts(tech_stack@)),
            language@,
            lowered_all(texts(headings@)),
        ).0,
{
    let lowered_stack = lower_all(tech_stack);
    let lowered_headings = lower_all(headings);
    refine_lowered(tech_stack, &lowered_stack, language, &lowered_headings)
}

} // verus!
