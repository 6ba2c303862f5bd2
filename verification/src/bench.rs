//! Benchmark definitions: what to grow, by which rules, and what to probe.

use vstd::prelude::*;
use vstd::string::StringExecFns;
use crate::text::str_eq;

verus! {

/// One rewrite rule, as text: a name, the pattern it looks for and the
/// pattern it puts beside what it found.
#[derive(Clone, Debug, PartialEq, Eq)]
pub struct Rule {
    pub name: String,
    pub lhs: String,
    pub rhs: String,
}

/// A rewrite rule as plain mathematical data.
pub struct RuleText {
    pub name: Seq<char>,
    pub lhs: Seq<char>,
    pub rhs: Seq<char>,
}

impl View for Rule {
    type V = RuleText;

    open spec fn view(&self) -> RuleText {
        RuleText { name: self.name@, lhs: self.lhs@, rhs: self.rhs@ }
    }
}

impl Rule {
    /// The rule called `name` that rewrites `lhs` to `rhs`.
    pub fn new(name: &str, lhs: &str, rhs: &str) -> (rule: Rule)
        ensures
            rule@ == (RuleText { name: name@, lhs: lhs@, rhs: rhs@ }),
    {
        Rule { name: String::from_str(name), lhs: String::from_str(lhs), rhs: String::from_str(rhs) }
    }
}

/// The definition of a benchmark. It is made once and never changed.
#[derive(Clone, Debug, PartialEq, Eq)]
pub struct Bench {
    /// The name under which rows are recorded.
    pub name: String,
    /// The expressions the corpus is seeded with.
    pub start_exprs: Vec<String>,
    /// The rules that grow the corpus.
    pub rules: Vec<Rule>,
    /// The probe patterns, in the order in which they are searched.
    pub bench_pats: Vec<String>,
}

/// The character sequences of a list of texts.
pub open spec fn texts(list: Seq<String>) -> Seq<Seq<char>> {
    Seq::new(list.len(), |i: int| list[i]@)
}

/// A list of rules as plain mathematical data.
pub open spec fn rule_texts(list: Seq<Rule>) -> Seq<RuleText> {
    Seq::new(list.len(), |i: int| list[i]@)
}

/// A benchmark definition as plain mathematical data.
pub struct Definition {
    pub name: Seq<char>,
    pub start_exprs: Seq<Seq<char>>,
    pub rules: Seq<RuleText>,
    pub bench_pats: Seq<Seq<char>>,
}

impl View for Bench {
    type V = Definition;

    open spec fn view(&self) -> Definition {
        Definition {
            name: self.name@,
            start_exprs: texts(self.start_exprs@),
            rules: rule_texts(self.rules@),
            bench_pats: texts(self.bench_pats@),
        }
    }
}

/// The rule called `name` that rewrites `lhs` to `rhs`.
pub open spec fn rewrite(name: &str, lhs: &str, rhs: &str) -> RuleText {
    RuleText { name: name@, lhs: lhs@, rhs: rhs@ }
}

/// The arithmetic benchmark: one seed expression over `+`, `-` and `*`;
/// commutativity, the identities of zero and one, cancellation, and
/// distribution with its converse as rules; ten probe patterns.
pub open spec fn math_definition() -> Definition {
    Definition {
        name: "math"@,
        start_exprs: seq!["(+ (* y (+ x y)) (- (+ x 2) (+ x x)))"@],
        rules: seq![
            rewrite("comm-add", "(+ ?a ?b)", "(+ ?b ?a)"),
            rewrite("comm-mul", "(* ?a ?b)", "(* ?b ?a)"),
            rewrite("sub-canon", "(- ?a ?b)", "(+ ?a (* -1 ?b))"),
            rewrite("zero-add", "(+ ?a 0)", "?a"),
            rewrite("zero-mul", "(* ?a 0)", "0"),
            rewrite("one-mul", "(* ?a 1)", "?a"),
            rewrite("add-zero", "?a", "(+ ?a 0)"),
            rewrite("mul-one", "?a", "(* ?a 1)"),
            rewrite("cancel-sub", "(- ?a ?a)", "0"),
            rewrite("distribute", "(* ?a (+ ?b ?c))", "(+ (* ?a ?b) (* ?a ?c))"),
            rewrite("factor", "(+ (* ?a ?b) (* ?a ?c))", "(* ?a (+ ?b ?c))"),
        ],
        bench_pats: seq![
            "(* ?a 1)"@,
            "(* ?a 0)"@,
            "(* ?a ?a)"@,
            "(* ?a ?b)"@,
            "(+ ?a ?b)"@,
            "(+ ?a (+ ?b ?c))"@,
            "(* (+ ?a ?b) ?c)"@,
            "(+ (+ ?a (+ 1 ?b)) (+ ?a (+ 1 ?c)))"@,
            "(+ (* ?a (+ 1 ?b)) (* ?a (+ 1 ?c)))"@,
            "(+ (* ?a ?b) (* ?a ?c))"@,
        ],
    }
}

/// The definition of the arithmetic benchmark.
pub fn math_bench() -> (bench: Bench)
    ensures
        bench@ == math_definition(),
{
    let mut start_exprs: Vec<String> = Vec::new();
    start_exprs.push(String::from_str("(+ (* y (+ x y)) (- (+ x 2) (+ x x)))"));
    let mut rules: Vec<Rule> = Vec::new();
    rules.push(Rule::new("comm-add", "(+ ?a ?b)", "(+ ?b ?a)"));
    rules.push(Rule::new("comm-mul", "(* ?a ?b)", "(* ?b ?a)"));
    rules.push(Rule::new("sub-canon", "(- ?a ?b)", "(+ ?a (* -1 ?b))"));
    rules.push(Rule::new("zero-add", "(+ ?a 0)", "?a"));
    rules.push(Rule::new("zero-mul", "(* ?a 0)", "0"));
    rules.push(Rule::new("one-mul", "(* ?a 1)", "?a"));
    rules.push(Rule::new("add-zero", "?a", "(+ ?a 0)"));
    rules.push(Rule::new("mul-one", "?a", "(* ?a 1)"));
    rules.push(Rule::new("cancel-sub", "(- ?a ?a)", "0"));
    rules.push(Rule::new("distribute", "(* ?a (+ ?b ?c))", "(+ (* ?a ?b) (* ?a ?c))"));
    rules.push(Rule::new("factor", "(+ (* ?a ?b) (* ?a ?c))", "(* ?a (+ ?b ?c))"));
    let mut bench_pats: Vec<String> = Vec::new();
    bench_pats.push(String::from_str("(* ?a 1)"));
    bench_pats.push(String::from_str("(* ?a 0)"));
    bench_pats.push(String::from_str("(* ?a ?a)"));
    bench_pats.push(String::from_str("(* ?a ?b)"));
    bench_pats.push(String::from_str("(+ ?a ?b)"));
    bench_pats.push(String::from_str("(+ ?a (+ ?b ?c))"));
    bench_pats.push(String::from_str("(* (+ ?a ?b) ?c)"));
    bench_pats.push(String::from_str("(+ (+ ?a (+ 1 ?b)) (+ ?a (+ 1 ?c)))"));
    bench_pats.push(String::from_str("(+ (* ?a (+ 1 ?b)) (* ?a (+ 1 ?c)))"));
    bench_pats.push(String::from_str("(+ (* ?a ?b) (* ?a ?c))"));
    let bench = Bench { name: String::from_str("math"), start_exprs, rules, bench_pats };
    proof {
        assert(bench@.start_exprs =~= math_definition().start_exprs);
        assert(bench@.rules =~= math_definition().rules);
        assert(bench@.bench_pats =~= math_definition().bench_pats);
    }
    bench
}

/// The benchmarks that can be asked for by name.
#[derive(Clone, Copy, Debug, PartialEq, Eq, Structural)]
pub enum Benchmark {
    /// The arithmetic benchmark, registered as `math`.
    Math,
}

impl Benchmark {
    /// The name under which the benchmark is registered.
    pub open spec fn spec_name(self) -> Seq<char> {
        match self {
            Benchmark::Math => "math"@,
        }
    }

    /// The definition of the benchmark.
    pub open spec fn spec_definition(self) -> Definition {
        match self {
            Benchmark::Math => math_definition(),
        }
    }

    /// The definition of the benchmark. Its name is the one under which the
    /// benchmark is registered.
    pub fn definition(self) -> (bench: Bench)
        ensures
            bench@ == self.spec_definition(),
            bench@.name == self.spec_name(),
    {
        match self {
            Benchmark::Math => math_bench(),
        }
    }
}

/// The benchmark registered under `name`, if there is one. The name must
/// match exactly.
pub open spec fn registered(name: Seq<char>) -> Option<Benchmark> {
    if name == "math"@ {
        Some(Benchmark::Math)
    } else {
        None
    }
}

/// Looks a benchmark up by its exact name.
pub fn find_benchmark(name: &str) -> (found: Option<Benchmark>)
    ensures
        found == registered(name@),
        found matches Some(benchmark) ==> benchmark.spec_name() == name@,
{
    if str_eq(name, "math") {
        Some(Benchmark::Math)
    } else {
        None
    }
}

} // verus!
