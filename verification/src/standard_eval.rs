//! The frozen lm-eval-style subset that recipe benchmarks score: presets,
//! and the checks that turn a parsed subset document into runtime samples.

use vstd::prelude::*;

use crate::text::{chars_of, opt_chars, str_eq, string_views, trim};

verus! {

// ---------------------------------------------------------------------------
// Presets
// ---------------------------------------------------------------------------

/// Which frozen subset a benchmark scores.
#[derive(Clone, Copy, Debug, PartialEq, Eq, Structural)]
pub enum StandardEvalPreset {
    Quick,
    Default,
}

impl StandardEvalPreset {
    /// The name of the preset.
    pub fn label(self) -> (r: &'static str)
        ensures
            r@ == preset_name(self),
    {
        match self {
            StandardEvalPreset::Quick => "quick",
            StandardEvalPreset::Default => "default",
        }
    }
}

/// The name of a preset.
pub open spec fn preset_name(p: StandardEvalPreset) -> Seq<char> {
    match p {
        StandardEvalPreset::Quick => "quick"@,
        StandardEvalPreset::Default => "default"@,
    }
}

/// The preset a request names; without a name it is `default`.
pub fn parse_standard_eval_preset(value: Option<&str>) -> (r: Result<StandardEvalPreset, String>)
    ensures
        ({
            let name = match value {
                Some(v) => v@,
                None => "default"@,
            };
            match r {
                Ok(p) => preset_name(p) == name,
                Err(e) => name != "quick"@ && name != "default"@ && e@ == "Unknown eval preset: "@
                    + name,
            }
        }),
{
    let name = match value {
        Some(v) => v,
        None => "default",
    };
    if str_eq(name, "quick") {
        Ok(StandardEvalPreset::Quick)
    } else if str_eq(name, "default") {
        Ok(StandardEvalPreset::Default)
    } else {
        let mut e = String::from_str("Unknown eval preset: ");
        e.append(name);
        Err(e)
    }
}

/// Parsing the name of a preset gives that preset back.
pub proof fn lemma_preset_name_round_trip(p: StandardEvalPreset, q: StandardEvalPreset)
    ensures
        preset_name(p) == "quick"@ || preset_name(p) == "default"@,
        preset_name(p) == preset_name(q) ==> p == q,
{
    reveal_strlit("quick");
    reveal_strlit("default");
    if preset_name(p) == preset_name(q) && p != q {
        assert(preset_name(p)[0] != preset_name(q)[0]);
    }
}

// ---------------------------------------------------------------------------
// The subset document
// ---------------------------------------------------------------------------

/// One multiple-choice sample of the subset document.
#[derive(Clone, Debug)]
pub struct StandardSample {
    /// The sample's document id as text, where it has one.
    pub doc_id: Option<String>,
    pub prompt: String,
    pub target_delimiter: Option<String>,
    pub choices: Vec<String>,
    pub gold: u32,
    pub normalize_by_choice_length: bool,
}

/// One task of the subset document.
#[derive(Clone, Debug)]
pub struct StandardTask {
    pub name: String,
    pub output_type: String,
    pub samples: Vec<StandardSample>,
}

/// The subset document: a perplexity corpus and multiple-choice tasks.
#[derive(Clone, Debug)]
pub struct StandardSubset {
    pub ppl: Vec<String>,
    pub tasks: Vec<StandardTask>,
}

/// One sample as the native runtime scores it.
#[derive(Clone, Debug)]
pub struct StandardEvalSampleInput {
    pub doc_id: String,
    pub task: String,
    pub prompt: String,
    pub target_delimiter: String,
    pub choices: Vec<String>,
    pub continuations: Vec<String>,
    pub choice_lengths: Vec<u64>,
    pub gold_index: u32,
    pub normalize_by_choice_length: bool,
}

/// A checked subset: the non-blank corpus texts and the runtime samples.
#[derive(Clone, Debug)]
pub struct LoadedStandardSubset {
    pub ppl_texts: Vec<String>,
    pub samples: Vec<StandardEvalSampleInput>,
}

// ---------------------------------------------------------------------------
// What a subset must satisfy
// ---------------------------------------------------------------------------

/// The corpus texts that are not blank, in order.
pub open spec fn non_blank(texts: Seq<Seq<char>>) -> Seq<Seq<char>>
    decreases texts.len(),
{
    if texts.len() == 0 {
        seq![]
    } else if trim(texts.last()).len() > 0 {
        non_blank(texts.drop_last()).push(texts.last())
    } else {
        non_blank(texts.drop_last())
    }
}

/// The document id a message names for a sample.
pub open spec fn doc_label(d: Option<String>) -> Seq<char> {
    match d {
        Some(s) => s@,
        None => "<unknown>"@,
    }
}

/// Some choice of the sample is empty.
pub open spec fn has_empty_choice(choices: Seq<String>) -> bool {
    exists|k: int| 0 <= k < choices.len() && choices[k]@.len() == 0
}

/// What is wrong with a sample of task `task`, if anything.
pub open spec fn sample_problem(label: Seq<char>, task: Seq<char>, s: StandardSample) -> Option<Seq<char>> {
    if s.target_delimiter is None {
        Some(label + " sample missing targetDelimiter for task "@ + task + " docId "@ + doc_label(s.doc_id))
    } else if s.choices@.len() < 2 {
        Some(label + " sample for "@ + task + " has fewer than two choices"@)
    } else if s.gold >= s.choices@.len() {
        Some(label + " sample for "@ + task + " has invalid gold index"@)
    } else if has_empty_choice(s.choices@) {
        Some(label + " sample for "@ + task + " docId "@ + doc_label(s.doc_id) + " has an empty choice"@)
    } else {
        None
    }
}

/// The first problem among the samples of task `task`.
pub open spec fn samples_problem(label: Seq<char>, task: Seq<char>, s: Seq<StandardSample>) -> Option<Seq<char>>
    decreases s.len(),
{
    if s.len() == 0 {
        None
    } else {
        match samples_problem(label, task, s.drop_last()) {
            Some(e) => Some(e),
            None => sample_problem(label, task, s.last()),
        }
    }
}

/// What is wrong with a task, if anything.
pub open spec fn task_problem(label: Seq<char>, t: StandardTask) -> Option<Seq<char>> {
    if t.output_type@ != "multiple_choice"@ {
        Some("unsupported "@ + label + " output type for "@ + t.name@ + ": "@ + t.output_type@)
    } else {
        samples_problem(label, t.name@, t.samples@)
    }
}

/// The first problem among the tasks.
pub open spec fn tasks_problem(label: Seq<char>, t: Seq<StandardTask>) -> Option<Seq<char>>
    decreases t.len(),
{
    if t.len() == 0 {
        None
    } else {
        match tasks_problem(label, t.drop_last()) {
            Some(e) => Some(e),
            None => task_problem(label, t.last()),
        }
    }
}

/// The samples of a task, each with the task's name.
pub open spec fn task_samples(t: StandardTask) -> Seq<(Seq<char>, StandardSample)> {
    t.samples@.map_values(|s: StandardSample| (t.name@, s))
}

/// The samples of all tasks, in order, each with its task's name.
pub open spec fn all_samples(t: Seq<StandardTask>) -> Seq<(Seq<char>, StandardSample)>
    decreases t.len(),
{
    if t.len() == 0 {
        seq![]
    } else {
        all_samples(t.drop_last()) + task_samples(t.last())
    }
}

/// `out` is the runtime sample built from sample `s` of task `task`: each
/// continuation is the target delimiter followed by its choice, and each
/// choice length counts characters.
pub open spec fn sample_built(out: StandardEvalSampleInput, task: Seq<char>, s: StandardSample) -> bool {
    &&& opt_chars(s.target_delimiter) == Some(out.target_delimiter@)
    &&& out.doc_id@ == doc_label(s.doc_id)
    &&& out.task@ == task
    &&& out.prompt@ == s.prompt@
    &&& string_views(out.choices@) == string_views(s.choices@)
    &&& string_views(out.continuations@) == string_views(s.choices@).map_values(
        |c: Seq<char>| out.target_delimiter@ + c,
    )
    &&& out.choice_lengths@ == string_views(s.choices@).map_values(|c: Seq<char>| c.len() as u64)
    &&& out.gold_index == s.gold
    &&& out.normalize_by_choice_length == s.normalize_by_choice_length
}

/// `out` holds, one for one, the runtime samples built from `expected`.
pub open spec fn samples_built(
    out: Seq<StandardEvalSampleInput>,
    expected: Seq<(Seq<char>, StandardSample)>,
) -> bool {
    &&& out.len() == expected.len()
    &&& forall|k: int| 0 <= k < out.len() ==> sample_built(#[trigger] out[k], expected[k].0, expected[k].1)
}

proof fn lemma_samples_problem_prefix(label: Seq<char>, task: Seq<char>, s: Seq<StandardSample>, k: int)
    requires
        0 <= k <= s.len(),
        samples_problem(label, task, s.take(k)) is Some,
    ensures
        samples_problem(label, task, s) == samples_problem(label, task, s.take(k)),
    decreases s.len(),
{
    if k < s.len() {
        assert(s.drop_last().take(k) == s.take(k));
        lemma_samples_problem_prefix(label, task, s.drop_last(), k);
    } else {
        assert(s.take(k) == s);
    }
}

proof fn lemma_tasks_problem_prefix(label: Seq<char>, t: Seq<StandardTask>, k: int)
    requires
        0 <= k <= t.len(),
        tasks_problem(label, t.take(k)) is Some,
    ensures
        tasks_problem(label, t) == tasks_problem(label, t.take(k)),
    decreases t.len(),
{
    if k < t.len() {
        assert(t.drop_last().take(k) == t.take(k));
        lemma_tasks_problem_prefix(label, t.drop_last(), k);
    } else {
        assert(t.take(k) == t);
    }
}

// ---------------------------------------------------------------------------
// Building the runtime samples
// ---------------------------------------------------------------------------

fn clone_strings(v: &Vec<String>) -> (r: Vec<String>)
    ensures
        string_views(r@) == string_views(v@),
{
    let mut r: Vec<String> = Vec::new();
    let mut i: usize = 0;
    while i < v.len()
        invariant
            i <= v.len(),
            string_views(r@) == string_views(v@).take(i as int),
        decreases v.len() - i,
    {
        let ghost prev = string_views(r@);
        let s = v[i].clone();
        r.push(s);
        assert(string_views(r@) =~= prev.push(v@[i as int]@));
        i = i + 1;
    }
    assert(string_views(v@).take(v.len() as int) == string_views(v@));
    r
}

fn doc_label_of(d: &Option<String>) -> (r: String)
    ensures
        r@ == doc_label(*d),
{
    match d {
        Some(s) => s.clone(),
        None => String::from_str("<unknown>"),
    }
}

/// Builds the runtime sample of sample `s` of task `task`, or says what is
/// wrong with it.
fn build_sample(label: &str, task: &str, s: &StandardSample) -> (r: Result<StandardEvalSampleInput, String>)
    ensures
        match r {
            Ok(out) => sample_problem(label@, task@, *s) is None && sample_built(out, task@, *s),
            Err(e) => sample_problem(label@, task@, *s) == Some(e@),
        },
{
    let doc = doc_label_of(&s.doc_id);
    let delimiter = match &s.target_delimiter {
        None => {
            let mut e = String::from_str(label);
            e.append(" sample missing targetDelimiter for task ");
            e.append(task);
            e.append(" docId ");
            e.append(doc.as_str());
            return Err(e);
        },
        Some(d) => d.clone(),
    };
    if s.choices.len() < 2 {
        let mut e = String::from_str(label);
        e.append(" sample for ");
        e.append(task);
        e.append(" has fewer than two choices");
        return Err(e);
    }
    if s.gold as usize >= s.choices.len() {
        let mut e = String::from_str(label);
        e.append(" sample for ");
        e.append(task);
        e.append(" has invalid gold index");
        return Err(e);
    }
    let ghost choices = string_views(s.choices@);
    let mut continuations: Vec<String> = Vec::new();
    let mut lengths: Vec<u64> = Vec::new();
    let mut i: usize = 0;
    while i < s.choices.len()
        invariant
            i <= s.choices.len(),
            choices == string_views(s.choices@),
            doc@ == doc_label(s.doc_id),
            opt_chars(s.target_delimiter) == Some(delimiter@),
            s.choices@.len() >= 2,
            s.gold < s.choices@.len(),
            forall|k: int| 0 <= k < i ==> s.choices@[k]@.len() > 0,
            string_views(continuations@) == choices.take(i as int).map_values(
                |c: Seq<char>| delimiter@ + c,
            ),
            lengths@ == choices.take(i as int).map_values(|c: Seq<char>| c.len() as u64),
        decreases s.choices.len() - i,
    {
        let chars = chars_of(s.choices[i].as_str());
        if chars.len() == 0 {
            assert(has_empty_choice(s.choices@));
            let mut e = String::from_str(label);
            e.append(" sample for ");
            e.append(task);
            e.append(" docId ");
            e.append(doc.as_str());
            e.append(" has an empty choice");
            return Err(e);
        }
        let ghost prev_c = string_views(continuations@);
        let ghost prev_l = lengths@;
        let mut c = delimiter.clone();
        c.append(s.choices[i].as_str());
        continuations.push(c);
        lengths.push(chars.len() as u64);
        assert(string_views(continuations@) =~= prev_c.push(delimiter@ + choices[i as int]));
        assert(choices.take(i + 1).map_values(|c: Seq<char>| delimiter@ + c) =~= choices.take(
            i as int,
        ).map_values(|c: Seq<char>| delimiter@ + c).push(delimiter@ + choices[i as int]));
        assert(lengths@ =~= prev_l.push(choices[i as int].len() as u64));
        assert(choices.take(i + 1).map_values(|c: Seq<char>| c.len() as u64) =~= choices.take(
            i as int,
        ).map_values(|c: Seq<char>| c.len() as u64).push(choices[i as int].len() as u64));
        i = i + 1;
    }
    assert(choices.take(s.choices.len() as int) == choices);
    assert(!has_empty_choice(s.choices@));
    let out = StandardEvalSampleInput {
        doc_id: doc,
        task: String::from_str(task),
        prompt: s.prompt.clone(),
        target_delimiter: delimiter,
        choices: clone_strings(&s.choices),
        continuations,
        choice_lengths: lengths,
        gold_index: s.gold,
        normalize_by_choice_length: s.normalize_by_choice_length,
    };
    Ok(out)
}

/// Checks a parsed subset document (named `label` in messages) and builds
/// the runtime samples: the blank corpus texts are dropped, every task
/// must be multiple choice, and every sample needs a target delimiter, at
/// least two choices, none of them empty, and a gold index among them.
pub fn standard_eval_subset(subset: &StandardSubset, label: &str) -> (r: Result<LoadedStandardSubset, String>)
    ensures
        ({
            let texts = non_blank(string_views(subset.ppl@));
            let problem = tasks_problem(label@, subset.tasks@);
            let expected = all_samples(subset.tasks@);
            match r {
                Ok(loaded) => {
                    &&& texts.len() > 0
                    &&& problem is None
                    &&& expected.len() > 0
                    &&& string_views(loaded.ppl_texts@) == texts
                    &&& samples_built(loaded.samples@, expected)
                },
                Err(e) => if texts.len() == 0 {
                    e@ == label@ + " PPL corpus is empty"@
                } else if problem is Some {
                    problem == Some(e@)
                } else {
                    expected.len() == 0 && e@ == label@ + " sample set is empty"@
                },
            }
        }),
{
    let ghost ppl = string_views(subset.ppl@);
    let mut texts: Vec<String> = Vec::new();
    let mut i: usize = 0;
    while i < subset.ppl.len()
        invariant
            i <= subset.ppl.len(),
            ppl == string_views(subset.ppl@),
            string_views(texts@) == non_blank(ppl.take(i as int)),
        decreases subset.ppl.len() - i,
    {
        assert(ppl.take(i + 1).drop_last() == ppl.take(i as int));
        assert(ppl.take(i + 1).last() == subset.ppl@[i as int]@);
        if !crate::text::is_blank(subset.ppl[i].as_str()) {
            let ghost prev = string_views(texts@);
            let t = subset.ppl[i].clone();
            texts.push(t);
            assert(string_views(texts@) =~= prev.push(subset.ppl@[i as int]@));
        }
        i = i + 1;
    }
    assert(ppl.take(subset.ppl.len() as int) == ppl);
    if texts.len() == 0 {
        let mut e = String::from_str(label);
        e.append(" PPL corpus is empty");
        return Err(e);
    }
    let ghost tasks = subset.tasks@;
    let mut samples: Vec<StandardEvalSampleInput> = Vec::new();
    let mut t: usize = 0;
    while t < subset.tasks.len()
        invariant
            t <= subset.tasks.len(),
            tasks == subset.tasks@,
            texts@.len() > 0,
            string_views(texts@) == non_blank(string_views(subset.ppl@)),
            tasks_problem(label@, tasks.take(t as int)) is None,
            samples_built(samples@, all_samples(tasks.take(t as int))),
        decreases subset.tasks.len() - t,
    {
        let ghost tt = tasks.take(t + 1);
        assert(tt.drop_last() == tasks.take(t as int));
        assert(tt.last() == tasks[t as int]);
        let task = &subset.tasks[t];
        if !str_eq(task.output_type.as_str(), "multiple_choice") {
            let mut e = String::from_str("unsupported ");
            e.append(label);
            e.append(" output type for ");
            e.append(task.name.as_str());
            e.append(": ");
            e.append(task.output_type.as_str());
            proof {
                lemma_tasks_problem_prefix(label@, tasks, t + 1);
            }
            return Err(e);
        }
        let ghost before = all_samples(tasks.take(t as int));
        let ghost mine = task_samples(*task);
        let mut j: usize = 0;
        while j < task.samples.len()
            invariant
                j <= task.samples.len(),
                t < subset.tasks.len(),
                tasks == subset.tasks@,
                *task == tasks[t as int],
                task.output_type@ == "multiple_choice"@,
                texts@.len() > 0,
                string_views(texts@) == non_blank(string_views(subset.ppl@)),
                tasks_problem(label@, tasks.take(t as int)) is None,
                before == all_samples(tasks.take(t as int)),
                mine == task_samples(*task),
                samples_problem(label@, task.name@, task.samples@.take(j as int)) is None,
                samples_built(samples@, before + mine.take(j as int)),
            decreases task.samples.len() - j,
        {
            let ghost ss = task.samples@.take(j + 1);
            assert(ss.drop_last() == task.samples@.take(j as int));
            assert(ss.last() == task.samples@[j as int]);
            match build_sample(label, task.name.as_str(), &task.samples[j]) {
                Ok(out) => {
                    let ghost prev = samples@;
                    samples.push(out);
                    assert(before + mine.take(j + 1) =~= (before + mine.take(j as int)).push(
                        mine[j as int],
                    ));
                    assert(samples@ == prev.push(out));
                    assert forall|k: int| 0 <= k < samples@.len() implies sample_built(
                        #[trigger] samples@[k],
                        (before + mine.take(j + 1))[k].0,
                        (before + mine.take(j + 1))[k].1,
                    ) by {
                        if k < prev.len() {
                            assert(samples@[k] == prev[k]);
                        }
                    }
                },
                Err(e) => {
                    proof {
                        assert(samples_problem(label@, task.name@, ss) == Some(e@));
                        lemma_samples_problem_prefix(label@, task.name@, task.samples@, j + 1);
                        assert(samples_problem(label@, task.name@, task.samples@) == Some(e@));
                        assert(task_problem(label@, tasks[t as int]) == Some(e@));
                        assert(tasks.take(t + 1).drop_last() == tasks.take(t as int));
                        assert(tasks.take(t + 1).last() == tasks[t as int]);
                        assert(tasks_problem(label@, tasks.take(t + 1)) == Some(e@));
                        lemma_tasks_problem_prefix(label@, tasks, t + 1);
                    }
                    return Err(e);
                },
            }
            j = j + 1;
        }
        assert(task.samples@.take(task.samples@.len() as int) == task.samples@);
        assert(mine.take(mine.len() as int) == mine);
        t = t + 1;
    }
    assert(tasks.take(subset.tasks.len() as int) == tasks);
    if samples.len() == 0 {
        let mut e = String::from_str(label);
        e.append(" sample set is empty");
        return Err(e);
    }
    Ok(LoadedStandardSubset { ppl_texts: texts, samples })
}

// ---------------------------------------------------------------------------
// The quick corpus
// ---------------------------------------------------------------------------

/// The quick corpus followed by each default text it does not hold yet,
/// in order.
pub open spec fn expanded_corpus(quick: Seq<Seq<char>>, default: Seq<Seq<char>>) -> Seq<Seq<char>>
    decreases default.len(),
{
    if default.len() == 0 {
        quick
    } else {
        let e = expanded_corpus(quick, default.drop_last());
        if e.contains(default.last()) {
            e
        } else {
            e.push(default.last())
        }
    }
}

proof fn lemma_expanded_corpus(quick: Seq<Seq<char>>, default: Seq<Seq<char>>)
    ensures
        expanded_corpus(quick, default).len() >= quick.len(),
        expanded_corpus(quick, default).take(quick.len() as int) == quick,
        forall|t: Seq<char>| default.contains(t) ==> expanded_corpus(quick, default).contains(t),
        forall|t: Seq<char>|
            expanded_corpus(quick, default).contains(t) ==> quick.contains(t) || default.contains(t),
    decreases default.len(),
{
    if default.len() > 0 {
        let d = default.drop_last();
        lemma_expanded_corpus(quick, d);
        let e = expanded_corpus(quick, d);
        assert forall|t: Seq<char>| default.contains(t) implies expanded_corpus(quick, default).contains(t) by {
            let k = choose|k: int| 0 <= k < default.len() && default[k] == t;
            if t == default.last() {
                if !e.contains(t) {
                    assert(e.push(t)[e.len() as int] == t);
                }
            } else {
                assert(k < default.len() - 1);
                assert(d[k] == t);
                assert(d.contains(t));
                assert(e.contains(t));
                if !e.contains(default.last()) {
                    let m = choose|m: int| 0 <= m < e.len() && e[m] == t;
                    assert(e.push(default.last())[m] == t);
                }
            }
        }
        assert forall|t: Seq<char>| expanded_corpus(quick, default).contains(t) implies quick.contains(t)
            || default.contains(t) by {
            if !e.contains(default.last()) {
                let m = choose|m: int| 0 <= m < e.len() + 1 && e.push(default.last())[m] == t;
                if m < e.len() {
                    assert(e[m] == t);
                    if d.contains(t) {
                        let k = choose|k: int| 0 <= k < d.len() && d[k] == t;
                        assert(default[k] == t);
                    }
                } else {
                    assert(default[default.len() - 1] == t);
                }
            } else {
                if d.contains(t) {
                    let k = choose|k: int| 0 <= k < d.len() && d[k] == t;
                    assert(default[k] == t);
                }
            }
        }
        if !e.contains(default.last()) {
            assert(e.push(default.last()).take(quick.len() as int) == e.take(quick.len() as int));
        }
    }
}

fn strings_contain(v: &Vec<String>, x: &str) -> (r: bool)
    ensures
        r == string_views(v@).contains(x@),
{
    let mut i: usize = 0;
    while i < v.len()
        invariant
            i <= v.len(),
            forall|k: int| 0 <= k < i ==> string_views(v@)[k] != x@,
        decreases v.len() - i,
    {
        if str_eq(v[i].as_str(), x) {
            assert(string_views(v@)[i as int] == x@);
            return true;
        }
        i = i + 1;
    }
    false
}

/// The quick corpus, extended with the default texts it does not hold:
/// it keeps the quick texts first, holds every text of both, and nothing
/// else.
pub fn expand_quick_ppl_corpus(quick_ppl: Vec<String>, default_ppl: Vec<String>) -> (r: Vec<String>)
    ensures
        string_views(r@) == expanded_corpus(string_views(quick_ppl@), string_views(default_ppl@)),
        string_views(r@).take(quick_ppl@.len() as int) == string_views(quick_ppl@),
        forall|t: Seq<char>|
            string_views(default_ppl@).contains(t) || string_views(quick_ppl@).contains(t)
                ==> string_views(r@).contains(t),
        forall|t: Seq<char>|
            string_views(r@).contains(t) ==> string_views(quick_ppl@).contains(t) || string_views(
                default_ppl@,
            ).contains(t),
{
    let ghost q = string_views(quick_ppl@);
    let ghost d = string_views(default_ppl@);
    let mut out = quick_ppl;
    let mut i: usize = 0;
    assert(d.take(0) =~= Seq::<Seq<char>>::empty());
    while i < default_ppl.len()
        invariant
            i <= default_ppl.len(),
            d == string_views(default_ppl@),
            string_views(out@) == expanded_corpus(q, d.take(i as int)),
        decreases default_ppl.len() - i,
    {
        assert(d.take(i + 1).drop_last() == d.take(i as int));
        assert(d.take(i + 1).last() == default_ppl@[i as int]@);
        if !strings_contain(&out, default_ppl[i].as_str()) {
            let ghost prev = string_views(out@);
            let t = default_ppl[i].clone();
            out.push(t);
            assert(string_views(out@) =~= prev.push(default_ppl@[i as int]@));
        }
        i = i + 1;
    }
    assert(d.take(default_ppl.len() as int) == d);
    proof {
        lemma_expanded_corpus(q, d);
        assert forall|t: Seq<char>| q.contains(t) implies string_views(out@).contains(t) by {
            let k = choose|k: int| 0 <= k < q.len() && q[k] == t;
            assert(string_views(out@).take(q.len() as int)[k] == t);
        }
    }
    out
}

// ---------------------------------------------------------------------------
// Reading the runtime's results
// ---------------------------------------------------------------------------

/// How a sample's prediction changed from the baseline to the recipe.
pub open spec fn flip_kind(
    has_baseline: bool,
    baseline_prediction: u32,
    recipe_prediction: u32,
    baseline_correct: bool,
    recipe_correct: bool,
) -> Seq<char> {
    if has_baseline {
        if baseline_prediction != recipe_prediction {
            if baseline_correct && !recipe_correct {
                "correct_to_wrong"@
            } else if !baseline_correct && recipe_correct {
                "wrong_to_correct"@
            } else {
                "prediction_changed"@
            }
        } else {
            "same_prediction"@
        }
    } else if recipe_correct {
        "recipe_correct"@
    } else {
        "recipe_wrong"@
    }
}

/// How a sample's prediction changed from the baseline to the recipe;
/// without a baseline, only whether the recipe got it right.
pub fn sample_flip_type(
    has_baseline: bool,
    baseline_prediction: u32,
    recipe_prediction: u32,
    baseline_correct: bool,
    recipe_correct: bool,
) -> (r: &'static str)
    ensures
        r@ == flip_kind(has_baseline, baseline_prediction, recipe_prediction, baseline_correct, recipe_correct),
{
    if has_baseline {
        if baseline_prediction != recipe_prediction {
            if baseline_correct && !recipe_correct {
                "correct_to_wrong"
            } else if !baseline_correct && recipe_correct {
                "wrong_to_correct"
            } else {
                "prediction_changed"
            }
        } else {
            "same_prediction"
        }
    } else if recipe_correct {
        "recipe_correct"
    } else {
        "recipe_wrong"
    }
}

/// The bytes of a NUL-terminated C string buffer, up to the first NUL (all
/// of them where there is none).
pub open spec fn c_text(bytes: Seq<u8>) -> Seq<u8>
    decreases bytes.len(),
{
    if bytes.len() == 0 {
        seq![]
    } else if bytes[0] == 0 {
        seq![]
    } else {
        seq![bytes[0]] + c_text(bytes.drop_first())
    }
}

proof fn lemma_c_text_prefix(bytes: Seq<u8>, k: int)
    requires
        0 <= k <= bytes.len(),
        forall|m: int| 0 <= m < k ==> bytes[m] != 0,
        k < bytes.len() ==> bytes[k] == 0,
    ensures
        c_text(bytes) == bytes.take(k),
    decreases bytes.len(),
{
    if bytes.len() > 0 && k > 0 {
        assert forall|m: int| 0 <= m < k - 1 implies bytes.drop_first()[m] != 0 by {
            assert(bytes.drop_first()[m] == bytes[m + 1]);
        }
        lemma_c_text_prefix(bytes.drop_first(), k - 1);
        assert(bytes.take(k) =~= seq![bytes[0]] + bytes.drop_first().take(k - 1));
    } else if k == 0 {
        assert(bytes.take(0) =~= Seq::<u8>::empty());
    }
}

/// The task name of a runtime result: its NUL-terminated name buffer,
/// decoded as UTF-8 with invalid sequences replaced.
pub fn standard_task_name(task: &[u8]) -> (r: String)
    ensures
        r@ == crate::text::utf8_lossy(c_text(task@)),
{
    let mut end: usize = 0;
    while end < task.len() && task[end] != 0
        invariant
            end <= task.len(),
            forall|m: int| 0 <= m < end ==> task@[m] != 0,
        decreases task.len() - end,
    {
        end = end + 1;
    }
    proof {
        lemma_c_text_prefix(task@, end as int);
        assert(task@.subrange(0, end as int) == task@.take(end as int));
    }
    crate::text::lossy_text(task, 0, end)
}

} // verus!
