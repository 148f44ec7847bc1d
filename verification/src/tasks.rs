//! The registry of build rules: native intrinsic rules and user task
//! rules, grouped by the product type they provide. Task registration
//! is a stateful lifecycle — begin a task, add its input clauses and
//! gets, end it — and double registration of a rule for a product is
//! excluded by contract.

use vstd::prelude::*;
use crate::bytetext::{dec_digits, push_decimal, push_all};

verus! {

/// A product or parameter type, by its registry key.
#[derive(Clone, Copy, PartialEq, Eq, Structural, Debug)]
pub struct TypeId {
    pub id: u64,
}

/// A callable registered for a task rule, by key and display name.
#[derive(Clone, Debug, PartialEq, Eq)]
pub struct Function {
    pub id: u64,
    pub name: Vec<u8>,
}

/// A dependency awaited in the middle of a task's run.
#[derive(Clone, Copy, PartialEq, Eq, Structural, Debug)]
pub struct Get {
    pub product: TypeId,
    pub subject: TypeId,
}

/// A dependency declared up front in a task's clause.
#[derive(Clone, Copy, PartialEq, Eq, Structural, Debug)]
pub struct Select {
    pub product: TypeId,
}

/// One edge a rule contributes to the rule graph.
#[derive(Clone, Copy, PartialEq, Eq, Structural, Debug)]
pub enum DependencyKey {
    JustSelect(Select),
    JustGet(Get),
}

/// The verbosity level attached to a task's display information.
#[derive(Clone, Copy, PartialEq, Eq, Structural, Debug)]
pub enum Level {
    Error,
    Warn,
    Info,
    Debug,
    Trace,
}

/// How a task presents itself: name, optional description, level.
#[derive(Clone, Debug, PartialEq, Eq)]
pub struct DisplayInfo {
    pub name: Vec<u8>,
    pub desc: Option<Vec<u8>>,
    pub level: Level,
}

/// A user-defined task rule.
#[derive(Clone, Debug, PartialEq, Eq)]
pub struct Task {
    pub product: TypeId,
    pub can_modify_workunit: bool,
    pub clause: Vec<TypeId>,
    pub gets: Vec<Get>,
    pub func: Function,
    pub cacheable: bool,
    pub display_info: DisplayInfo,
}

/// A natively implemented rule.
#[derive(Clone, Debug, PartialEq, Eq)]
pub struct Intrinsic {
    pub product: TypeId,
    pub inputs: Vec<TypeId>,
}

/// A rule providing a product: intrinsic (native) or task (user).
#[derive(Clone, Debug, PartialEq, Eq)]
pub enum Rule {
    Intrinsic(Intrinsic),
    Task(Task),
}

/// The colour a rule takes in a rendered rule graph.
#[derive(Clone, Copy, PartialEq, Eq, Structural, Debug)]
pub enum Palette {
    Gray,
}

/// The set of intrinsic rules handed to the registry at start-up.
#[derive(Clone, Debug, PartialEq, Eq)]
pub struct Intrinsics {
    pub keys: Vec<Intrinsic>,
}

/// Whether two functions denote the same callable.
pub open spec fn func_eq(a: Function, b: Function) -> bool {
    a.id == b.id && a.name@ == b.name@
}

/// Whether two display infos carry the same content.
pub open spec fn info_eq(a: DisplayInfo, b: DisplayInfo) -> bool {
    &&& a.name@ == b.name@
    &&& a.level == b.level
    &&& match (a.desc, b.desc) {
        (Option::None, Option::None) => true,
        (Option::Some(x), Option::Some(y)) => x@ == y@,
        _ => false,
    }
}

/// Whether two tasks carry the same content.
pub open spec fn task_eq(a: Task, b: Task) -> bool {
    &&& a.product == b.product
    &&& a.can_modify_workunit == b.can_modify_workunit
    &&& a.clause@ == b.clause@
    &&& a.gets@ == b.gets@
    &&& func_eq(a.func, b.func)
    &&& a.cacheable == b.cacheable
    &&& info_eq(a.display_info, b.display_info)
}

/// Whether two intrinsics carry the same content.
pub open spec fn intrinsic_eq(a: Intrinsic, b: Intrinsic) -> bool {
    a.product == b.product && a.inputs@ == b.inputs@
}

/// Whether two rules carry the same content.
pub open spec fn rule_eq(a: Rule, b: Rule) -> bool {
    match (a, b) {
        (Rule::Intrinsic(x), Rule::Intrinsic(y)) => intrinsic_eq(x, y),
        (Rule::Task(x), Rule::Task(y)) => task_eq(x, y),
        _ => false,
    }
}

fn eq_bytes(a: &Vec<u8>, b: &Vec<u8>) -> (r: bool)
    ensures
        r <==> a@ == b@,
{
    if a.len() != b.len() {
        return false;
    }
    let mut i: usize = 0;
    while i < a.len()
        invariant
            i <= a.len(),
            a@.len() == b@.len(),
            forall|j: int| 0 <= j < i ==> a@[j] == b@[j],
        decreases a.len() - i,
    {
        if a[i] != b[i] {
            return false;
        }
        i = i + 1;
    }
    proof {
        assert(a@ =~= b@);
    }
    true
}

fn eq_typeids(a: &Vec<TypeId>, b: &Vec<TypeId>) -> (r: bool)
    ensures
        r <==> a@ == b@,
{
    if a.len() != b.len() {
        return false;
    }
    let mut i: usize = 0;
    while i < a.len()
        invariant
            i <= a.len(),
            a@.len() == b@.len(),
            forall|j: int| 0 <= j < i ==> a@[j] == b@[j],
        decreases a.len() - i,
    {
        if a[i].id != b[i].id {
            return false;
        }
        i = i + 1;
    }
    proof {
        assert(a@ =~= b@);
    }
    true
}

fn eq_gets(a: &Vec<Get>, b: &Vec<Get>) -> (r: bool)
    ensures
        r <==> a@ == b@,
{
    if a.len() != b.len() {
        return false;
    }
    let mut i: usize = 0;
    while i < a.len()
        invariant
            i <= a.len(),
            a@.len() == b@.len(),
            forall|j: int| 0 <= j < i ==> a@[j] == b@[j],
        decreases a.len() - i,
    {
        if !(a[i].product.id == b[i].product.id && a[i].subject.id == b[i].subject.id) {
            return false;
        }
        i = i + 1;
    }
    proof {
        assert(a@ =~= b@);
    }
    true
}

fn eq_funcs(a: &Function, b: &Function) -> (r: bool)
    ensures
        r <==> func_eq(*a, *b),
{
    a.id == b.id && eq_bytes(&a.name, &b.name)
}

fn eq_infos(a: &DisplayInfo, b: &DisplayInfo) -> (r: bool)
    ensures
        r <==> info_eq(*a, *b),
{
    if !eq_bytes(&a.name, &b.name) {
        return false;
    }
    if !(a.level == b.level) {
        return false;
    }
    match (&a.desc, &b.desc) {
        (Option::None, Option::None) => true,
        (Option::Some(x), Option::Some(y)) => eq_bytes(x, y),
        _ => false,
    }
}

fn eq_tasks(a: &Task, b: &Task) -> (r: bool)
    ensures
        r <==> task_eq(*a, *b),
{
    a.product.id == b.product.id && a.can_modify_workunit == b.can_modify_workunit && eq_typeids(
        &a.clause,
        &b.clause,
    ) && eq_gets(&a.gets, &b.gets) && eq_funcs(&a.func, &b.func) && a.cacheable == b.cacheable
        && eq_infos(&a.display_info, &b.display_info)
}

/// Whether two rules carry the same content.
pub fn eq_rules(a: &Rule, b: &Rule) -> (r: bool)
    ensures
        r <==> rule_eq(*a, *b),
{
    match (a, b) {
        (Rule::Intrinsic(x), Rule::Intrinsic(y)) => x.product.id == y.product.id && eq_typeids(
            &x.inputs,
            &y.inputs,
        ),
        (Rule::Task(x), Rule::Task(y)) => eq_tasks(x, y),
        _ => false,
    }
}

impl Rule {
    /// The dependency edges this rule contributes: one select per
    /// clause entry, then (for tasks) one get per declared get.
    pub open spec fn spec_dependency_keys(self) -> Seq<DependencyKey> {
        match self {
            Rule::Task(t) => t.clause@.map_values(
                |ti: TypeId| DependencyKey::JustSelect(Select { product: ti }),
            ) + t.gets@.map_values(|g: Get| DependencyKey::JustGet(g)),
            Rule::Intrinsic(i) => i.inputs@.map_values(
                |ti: TypeId| DependencyKey::JustSelect(Select { product: ti }),
            ),
        }
    }

    /// The dependency keys of this rule, in clause order then get
    /// order.
    pub fn dependency_keys(&self) -> (r: Vec<DependencyKey>)
        ensures
            r@ == self.spec_dependency_keys(),
    {
        let mut out: Vec<DependencyKey> = Vec::new();
        match self {
            Rule::Task(t) => {
                let mut i: usize = 0;
                while i < t.clause.len()
                    invariant
                        i <= t.clause@.len(),
                        out@ == t.clause@.take(i as int).map_values(
                            |ti: TypeId| DependencyKey::JustSelect(Select { product: ti }),
                        ),
                    decreases t.clause.len() - i,
                {
                    out.push(DependencyKey::JustSelect(Select { product: t.clause[i] }));
                    i = i + 1;
                    proof {
                        assert(out@ =~= t.clause@.take(i as int).map_values(
                            |ti: TypeId| DependencyKey::JustSelect(Select { product: ti }),
                        ));
                    }
                }
                let ghost selects = out@;
                let mut j: usize = 0;
                while j < t.gets.len()
                    invariant
                        j <= t.gets@.len(),
                        out@ == selects + t.gets@.take(j as int).map_values(
                            |g: Get| DependencyKey::JustGet(g),
                        ),
                    decreases t.gets.len() - j,
                {
                    out.push(DependencyKey::JustGet(t.gets[j]));
                    j = j + 1;
                    proof {
                        assert(out@ =~= selects + t.gets@.take(j as int).map_values(
                            |g: Get| DependencyKey::JustGet(g),
                        ));
                    }
                }
                proof {
                    assert(t.clause@.take(t.clause@.len() as int) =~= t.clause@);
                    assert(t.gets@.take(t.gets@.len() as int) =~= t.gets@);
                }
            },
            Rule::Intrinsic(intr) => {
                let mut i: usize = 0;
                while i < intr.inputs.len()
                    invariant
                        i <= intr.inputs@.len(),
                        out@ == intr.inputs@.take(i as int).map_values(
                            |ti: TypeId| DependencyKey::JustSelect(Select { product: ti }),
                        ),
                    decreases intr.inputs.len() - i,
                {
                    out.push(DependencyKey::JustSelect(Select { product: intr.inputs[i] }));
                    i = i + 1;
                    proof {
                        assert(out@ =~= intr.inputs@.take(i as int).map_values(
                            |ti: TypeId| DependencyKey::JustSelect(Select { product: ti }),
                        ));
                    }
                }
                proof {
                    assert(intr.inputs@.take(intr.inputs@.len() as int) =~= intr.inputs@);
                }
            },
        }
        out
    }

    /// Whether the rule graph must reach this rule: task rules must be
    /// reachable, intrinsic rules need not be.
    pub fn require_reachable(&self) -> (r: bool)
        ensures
            r <==> self is Task,
    {
        match self {
            Rule::Task(_) => true,
            Rule::Intrinsic(_) => false,
        }
    }

    /// The colour this rule takes in a rendered graph: intrinsic rules
    /// are gray, task rules take the default.
    pub fn color(&self) -> (r: Option<Palette>)
        ensures
            r == match *self {
                Rule::Task(_) => Option::<Palette>::None,
                Rule::Intrinsic(_) => Option::Some(Palette::Gray),
            },
    {
        match self {
            Rule::Task(_) => Option::None,
            Rule::Intrinsic(_) => Option::Some(Palette::Gray),
        }
    }
}

/// How a rule is rendered for the rule graph: on one line, or spread
/// over several.
#[derive(Clone, Copy, PartialEq, Eq, Structural, Debug)]
pub struct GraphDisplayArgs {
    pub multiline: bool,
}

impl GraphDisplayArgs {
    /// The separator between listed items: a line break when
    /// multiline, else a space.
    pub open spec fn line_sep(self) -> Seq<u8> {
        if self.multiline {
            seq![10u8]
        } else {
            seq![32u8]
        }
    }

    /// The separator around bracketed lists: a line break when
    /// multiline, else nothing.
    pub open spec fn opt_line_sep(self) -> Seq<u8> {
        if self.multiline {
            seq![10u8]
        } else {
            Seq::empty()
        }
    }

    /// The item separator, as bytes.
    pub fn line_separator(&self) -> (r: Vec<u8>)
        ensures
            r@ == self.line_sep(),
    {
        let mut v: Vec<u8> = Vec::new();
        if self.multiline {
            v.push(10);
        } else {
            v.push(32);
        }
        proof {
            assert(v@ =~= self.line_sep());
        }
        v
    }

    /// The bracket separator, as bytes.
    pub fn optional_line_separator(&self) -> (r: Vec<u8>)
        ensures
            r@ == self.opt_line_sep(),
    {
        let mut v: Vec<u8> = Vec::new();
        if self.multiline {
            v.push(10);
        }
        proof {
            assert(v@ =~= self.opt_line_sep());
        }
        v
    }
}

/// How a type renders: its registry key in decimal.
pub open spec fn typeid_text(t: TypeId) -> Seq<u8> {
    dec_digits(t.id as nat)
}

/// How a get renders: `Get(<product>, <subject>)`.
pub open spec fn get_text(g: Get) -> Seq<u8> {
    seq![71u8, 101u8, 116u8, 40u8] + typeid_text(g.product) + seq![44u8, 32u8] + typeid_text(
        g.subject,
    ) + seq![41u8]
}

/// The byte strings a list of buffers holds.
pub open spec fn views_of_parts(parts: Seq<Vec<u8>>) -> Seq<Seq<u8>> {
    Seq::new(parts.len(), |j: int| parts[j]@)
}

/// The parts joined with the separator between consecutive parts.
pub open spec fn join_with(parts: Seq<Seq<u8>>, sep: Seq<u8>) -> Seq<u8>
    decreases parts.len(),
{
    if parts.len() == 0 {
        Seq::empty()
    } else if parts.len() == 1 {
        parts[0]
    } else {
        join_with(parts.drop_last(), sep) + sep + parts.last()
    }
}

/// How a select clause renders: the types joined with `", "`, and,
/// when there are several, joined with `","` plus the line separator
/// and framed by the bracket separator.
pub open spec fn select_clause_text(clause: Seq<TypeId>, args: GraphDisplayArgs) -> Seq<u8> {
    let parts = clause.map_values(|t: TypeId| typeid_text(t));
    if parts.len() > 1 {
        args.opt_line_sep() + join_with(parts, seq![44u8] + args.line_sep()) + args.opt_line_sep()
    } else {
        join_with(parts, seq![44u8, 32u8])
    }
}

/// How a task's gets render: nothing when there are none,
/// `", gets=[...]"` for one, and a separated, framed list for several.
pub open spec fn get_portion_text(gets: Seq<Get>, args: GraphDisplayArgs) -> Seq<u8> {
    let parts = gets.map_values(|g: Get| get_text(g));
    if parts.len() == 0 {
        Seq::empty()
    } else if parts.len() > 1 {
        seq![44u8] + args.line_sep() + seq![103u8, 101u8, 116u8, 115u8, 61u8, 91u8]
            + args.opt_line_sep() + join_with(parts, seq![44u8] + args.line_sep())
            + args.opt_line_sep() + seq![93u8]
    } else {
        seq![44u8, 32u8, 103u8, 101u8, 116u8, 115u8, 61u8, 91u8] + join_with(
            parts,
            seq![44u8, 32u8],
        ) + seq![93u8]
    }
}

/// `"rule"` for a cacheable task, `"goal_rule"` otherwise.
pub open spec fn rule_type_text(cacheable: bool) -> Seq<u8> {
    if cacheable {
        seq![114u8, 117u8, 108u8, 101u8]
    } else {
        seq![103u8, 111u8, 97u8, 108u8, 95u8, 114u8, 117u8, 108u8, 101u8]
    }
}

/// How a rule renders for the rule graph:
/// `@<rule type>(<func>(<clause>) -> <product><gets>)` for a task, and
/// `@rule(<intrinsic>(<clause>) -> <product>)` for an intrinsic.
pub open spec fn fmt_for_graph_text(r: Rule, args: GraphDisplayArgs) -> Seq<u8> {
    match r {
        Rule::Task(t) => seq![64u8] + rule_type_text(t.cacheable) + seq![40u8] + t.func.name@
            + seq![40u8] + select_clause_text(t.clause@, args) + seq![41u8, 32u8, 45u8, 62u8, 32u8]
            + typeid_text(t.product) + get_portion_text(t.gets@, args) + seq![41u8],
        Rule::Intrinsic(i) => seq![
            64u8,
            114u8,
            117u8,
            108u8,
            101u8,
            40u8,
            60u8,
            105u8,
            110u8,
            116u8,
            114u8,
            105u8,
            110u8,
            115u8,
            105u8,
            99u8,
            62u8,
            40u8,
        ] + select_clause_text(i.inputs@, args) + seq![41u8, 32u8, 45u8, 62u8, 32u8] + typeid_text(
            i.product,
        ) + seq![41u8],
    }
}

fn join_into(out: &mut Vec<u8>, parts: &Vec<Vec<u8>>, sep: &Vec<u8>)
    ensures
        final(out)@ == old(out)@ + join_with(views_of_parts(parts@), sep@),
{
    let ghost mapped = views_of_parts(parts@);
    let mut i: usize = 0;
    while i < parts.len()
        invariant
            i <= parts@.len(),
            mapped == views_of_parts(parts@),
            out@ == old(out)@ + join_with(mapped.take(i as int), sep@),
        decreases parts.len() - i,
    {
        if i > 0 {
            push_all(out, sep);
        }
        push_all(out, &parts[i]);
        proof {
            let next = mapped.take(i as int + 1);
            assert(next.drop_last() =~= mapped.take(i as int));
            assert(next.last() == mapped[i as int]);
            if i == 0 {
                assert(join_with(next, sep@) == mapped[0]);
            }
            assert(out@ =~= old(out)@ + join_with(mapped.take(i as int + 1), sep@));
        }
        i = i + 1;
    }
    proof {
        assert(mapped.take(mapped.len() as int) =~= mapped);
    }
}

fn typeid_texts(clause: &Vec<TypeId>) -> (r: Vec<Vec<u8>>)
    ensures
        r@.len() == clause@.len(),
        forall|j: int| 0 <= j < clause@.len() ==> (#[trigger] r@[j])@ == typeid_text(clause@[j]),
{
    let mut parts: Vec<Vec<u8>> = Vec::new();
    let mut i: usize = 0;
    while i < clause.len()
        invariant
            i <= clause@.len(),
            parts@.len() == i,
            forall|j: int| 0 <= j < i ==> (#[trigger] parts@[j])@ == typeid_text(clause@[j]),
        decreases clause.len() - i,
    {
        let mut one: Vec<u8> = Vec::new();
        push_decimal(&mut one, clause[i].id);
        parts.push(one);
        i = i + 1;
    }
    parts
}

fn push_comma_sep(args: &GraphDisplayArgs) -> (r: Vec<u8>)
    ensures
        r@ == seq![44u8] + args.line_sep(),
{
    let mut sep: Vec<u8> = Vec::new();
    sep.push(44);
    let ls = args.line_separator();
    push_all(&mut sep, &ls);
    proof {
        assert(sep@ =~= seq![44u8] + args.line_sep());
    }
    sep
}

fn formatted_select_clause(clause: &Vec<TypeId>, display_args: GraphDisplayArgs) -> (r: Vec<u8>)
    ensures
        r@ == select_clause_text(clause@, display_args),
{
    let parts = typeid_texts(clause);
    proof {
        assert(views_of_parts(parts@) =~= clause@.map_values(|t: TypeId| typeid_text(t)));
    }
    let mut out: Vec<u8> = Vec::new();
    if parts.len() > 1 {
        let ols = display_args.optional_line_separator();
        let sep = push_comma_sep(&display_args);
        push_all(&mut out, &ols);
        join_into(&mut out, &parts, &sep);
        push_all(&mut out, &ols);
    } else {
        let mut sep: Vec<u8> = Vec::new();
        sep.push(44);
        sep.push(32);
        proof {
            assert(sep@ =~= seq![44u8, 32u8]);
        }
        join_into(&mut out, &parts, &sep);
    }
    proof {
        assert(out@ =~= select_clause_text(clause@, display_args));
    }
    out
}

fn get_texts(gets: &Vec<Get>) -> (r: Vec<Vec<u8>>)
    ensures
        r@.len() == gets@.len(),
        forall|j: int| 0 <= j < gets@.len() ==> (#[trigger] r@[j])@ == get_text(gets@[j]),
{
    let mut parts: Vec<Vec<u8>> = Vec::new();
    let mut i: usize = 0;
    while i < gets.len()
        invariant
            i <= gets@.len(),
            parts@.len() == i,
            forall|j: int| 0 <= j < i ==> (#[trigger] parts@[j])@ == get_text(gets@[j]),
        decreases gets.len() - i,
    {
        let mut one: Vec<u8> = Vec::new();
        one.push(71);
        one.push(101);
        one.push(116);
        one.push(40);
        push_decimal(&mut one, gets[i].product.id);
        one.push(44);
        one.push(32);
        push_decimal(&mut one, gets[i].subject.id);
        one.push(41);
        proof {
            assert(one@ =~= get_text(gets@[i as int]));
        }
        parts.push(one);
        i = i + 1;
    }
    parts
}

fn push_get_portion(out: &mut Vec<u8>, gets: &Vec<Get>, display_args: GraphDisplayArgs)
    ensures
        final(out)@ == old(out)@ + get_portion_text(gets@, display_args),
{
    let parts = get_texts(gets);
    proof {
        assert(views_of_parts(parts@) =~= gets@.map_values(|g: Get| get_text(g)));
    }
    if parts.len() == 0 {
        proof {
            assert(out@ =~= old(out)@ + get_portion_text(gets@, display_args));
        }
        return;
    }
    if parts.len() > 1 {
        let ls = display_args.line_separator();
        let ols = display_args.optional_line_separator();
        let sep = push_comma_sep(&display_args);
        out.push(44);
        push_all(out, &ls);
        out.push(103);
        out.push(101);
        out.push(116);
        out.push(115);
        out.push(61);
        out.push(91);
        push_all(out, &ols);
        join_into(out, &parts, &sep);
        push_all(out, &ols);
        out.push(93);
    } else {
        out.push(44);
        out.push(32);
        out.push(103);
        out.push(101);
        out.push(116);
        out.push(115);
        out.push(61);
        out.push(91);
        let mut sep: Vec<u8> = Vec::new();
        sep.push(44);
        sep.push(32);
        proof {
            assert(sep@ =~= seq![44u8, 32u8]);
        }
        join_into(out, &parts, &sep);
        out.push(93);
    }
    proof {
        assert(out@ =~= old(out)@ + get_portion_text(gets@, display_args));
    }
}

impl Rule {
    /// Renders this rule for the rule graph, exactly as
    /// `fmt_for_graph_text` describes.
    #[verifier::rlimit(60)]
    pub fn fmt_for_graph(&self, display_args: GraphDisplayArgs) -> (r: Vec<u8>)
        ensures
            r@ == fmt_for_graph_text(*self, display_args),
    {
        let mut out: Vec<u8> = Vec::new();
        match self {
            Rule::Task(t) => {
                out.push(64);
                if t.cacheable {
                    out.push(114);
                    out.push(117);
                    out.push(108);
                    out.push(101);
                } else {
                    out.push(103);
                    out.push(111);
                    out.push(97);
                    out.push(108);
                    out.push(95);
                    out.push(114);
                    out.push(117);
                    out.push(108);
                    out.push(101);
                }
                out.push(40);
                push_all(&mut out, &t.func.name);
                out.push(40);
                let clause_portion = formatted_select_clause(&t.clause, display_args);
                push_all(&mut out, &clause_portion);
                out.push(41);
                out.push(32);
                out.push(45);
                out.push(62);
                out.push(32);
                push_decimal(&mut out, t.product.id);
                push_get_portion(&mut out, &t.gets, display_args);
                out.push(41);
            },
            Rule::Intrinsic(intr) => {
                out.push(64);
                out.push(114);
                out.push(117);
                out.push(108);
                out.push(101);
                out.push(40);
                out.push(60);
                out.push(105);
                out.push(110);
                out.push(116);
                out.push(114);
                out.push(105);
                out.push(110);
                out.push(115);
                out.push(105);
                out.push(99);
                out.push(62);
                out.push(40);
                let clause_portion = formatted_select_clause(&intr.inputs, display_args);
                push_all(&mut out, &clause_portion);
                out.push(41);
                out.push(32);
                out.push(45);
                out.push(62);
                out.push(32);
                push_decimal(&mut out, intr.product.id);
                out.push(41);
            },
        }
        proof {
            assert(out@ =~= fmt_for_graph_text(*self, display_args));
        }
        out
    }

    /// Renders this rule on one line, as its plain display form.
    pub fn display_text(&self) -> (r: Vec<u8>)
        ensures
            r@ == fmt_for_graph_text(*self, GraphDisplayArgs { multiline: false }),
    {
        self.fmt_for_graph(GraphDisplayArgs { multiline: false })
    }
}

/// Whether a rule with the same content is already registered for the
/// product in a flat registration list.
pub open spec fn rule_registered(rs: Seq<(TypeId, Rule)>, p: TypeId, r: Rule) -> bool {
    exists|i: int| 0 <= i < rs.len() && (#[trigger] rs[i]).0 == p && rule_eq(rs[i].1, r)
}

/// The rules registered for a product, in registration order.
pub open spec fn rules_for_in(rs: Seq<(TypeId, Rule)>, p: TypeId) -> Seq<Rule>
    decreases rs.len(),
{
    if rs.len() == 0 {
        Seq::empty()
    } else {
        rules_for_in(rs.drop_last(), p) + if rs.last().0 == p {
            seq![rs.last().1]
        } else {
            Seq::empty()
        }
    }
}

/// Registering a rule extends exactly its own product's rule list:
/// after a registration, the rules for the registered product are the
/// old ones followed by the new rule, and every other product's rules
/// are unchanged.
pub proof fn lemma_rules_for_push(rs: Seq<(TypeId, Rule)>, p: TypeId, r: Rule, q: TypeId)
    ensures
        rules_for_in(rs.push((p, r)), q) == rules_for_in(rs, q) + if p == q {
            seq![r]
        } else {
            Seq::empty()
        },
{
    let grown = rs.push((p, r));
    assert(grown.drop_last() =~= rs);
    assert(grown.last() == (p, r));
}

/// Registry of native intrinsic rules and user task rules, with the
/// in-progress task of the registration lifecycle.
pub struct Tasks {
    pub rules: Vec<(TypeId, Rule)>,
    pub preparing: Option<Task>,
}

impl Tasks {
    /// An empty registry with no task in progress.
    pub fn new() -> (r: Tasks)
        ensures
            r.rules@.len() == 0,
            r.preparing is None,
    {
        Tasks { rules: Vec::new(), preparing: None }
    }

    /// The registered (product, rule) pairs, in registration order.
    pub fn as_map(&self) -> (r: &Vec<(TypeId, Rule)>)
        ensures
            r@ == self.rules@,
    {
        &self.rules
    }

    /// Registers every intrinsic as a rule for its product, in order.
    pub fn intrinsics_set(&mut self, intrinsics: &Intrinsics)
        requires
            forall|k: int|
                0 <= k < intrinsics.keys@.len() ==> !rule_registered(
                    old(self).rules@,
                    (#[trigger] intrinsics.keys@[k]).product,
                    Rule::Intrinsic(intrinsics.keys@[k]),
                ),
            forall|i: int, k: int|
                0 <= i < k < intrinsics.keys@.len() ==> !((#[trigger] intrinsics.keys@[i]).product
                    == (#[trigger] intrinsics.keys@[k]).product && intrinsic_eq(
                    intrinsics.keys@[i],
                    intrinsics.keys@[k],
                )),
        ensures
            final(self).preparing == old(self).preparing,
            final(self).rules@.len() == old(self).rules@.len() + intrinsics.keys@.len(),
            forall|j: int|
                0 <= j < old(self).rules@.len() ==> final(self).rules@[j] == old(self).rules@[j],
            forall|k: int|
                0 <= k < intrinsics.keys@.len() ==> (#[trigger] final(self).rules@[old(
                    self,
                ).rules@.len() + k]).0 == intrinsics.keys@[k].product && rule_eq(
                    final(self).rules@[old(self).rules@.len() + k].1,
                    Rule::Intrinsic(intrinsics.keys@[k]),
                ),
    {
        let mut k: usize = 0;
        while k < intrinsics.keys.len()
            invariant
                k <= intrinsics.keys@.len(),
                forall|j: int|
                    0 <= j < intrinsics.keys@.len() ==> !rule_registered(
                        old(self).rules@,
                        (#[trigger] intrinsics.keys@[j]).product,
                        Rule::Intrinsic(intrinsics.keys@[j]),
                    ),
                forall|i: int, j: int|
                    0 <= i < j < intrinsics.keys@.len() ==> !((#[trigger] intrinsics.keys@[i]).product
                        == (#[trigger] intrinsics.keys@[j]).product && intrinsic_eq(
                        intrinsics.keys@[i],
                        intrinsics.keys@[j],
                    )),
                self.preparing == old(self).preparing,
                self.rules@.len() == old(self).rules@.len() + k,
                forall|j: int|
                    0 <= j < old(self).rules@.len() ==> self.rules@[j] == old(self).rules@[j],
                forall|j: int|
                    0 <= j < k ==> (#[trigger] self.rules@[old(self).rules@.len() + j]).0
                        == intrinsics.keys@[j].product && rule_eq(
                        self.rules@[old(self).rules@.len() + j].1,
                        Rule::Intrinsic(intrinsics.keys@[j]),
                    ),
            decreases intrinsics.keys.len() - k,
        {
            let intr = &intrinsics.keys[k];
            let mut inputs: Vec<TypeId> = Vec::new();
            let mut i: usize = 0;
            while i < intr.inputs.len()
                invariant
                    i <= intr.inputs@.len(),
                    inputs@ == intr.inputs@.take(i as int),
                decreases intr.inputs.len() - i,
            {
                inputs.push(intr.inputs[i]);
                i = i + 1;
                proof {
                    assert(inputs@ =~= intr.inputs@.take(i as int));
                }
            }
            proof {
                assert(intr.inputs@.take(intr.inputs@.len() as int) =~= intr.inputs@);
            }
            let rule = Rule::Intrinsic(Intrinsic { product: intr.product, inputs });
            proof {
                let kk = k as int;
                let rs = self.rules@;
                assert forall|i2: int|
                    0 <= i2 < rs.len() implies !((#[trigger] rs[i2]).0 == intr.product && rule_eq(
                    rs[i2].1,
                    rule,
                )) by {
                    if i2 < old(self).rules@.len() {
                        assert(rs[i2] == old(self).rules@[i2]);
                        assert(!rule_registered(
                            old(self).rules@,
                            intrinsics.keys@[kk].product,
                            Rule::Intrinsic(intrinsics.keys@[kk]),
                        ));
                        if rs[i2].0 == intr.product && rule_eq(rs[i2].1, rule) {
                            assert(rule_eq(rs[i2].1, Rule::Intrinsic(intrinsics.keys@[kk])));
                            assert(rule_registered(
                                old(self).rules@,
                                intrinsics.keys@[kk].product,
                                Rule::Intrinsic(intrinsics.keys@[kk]),
                            ));
                        }
                    } else {
                        let j = i2 - old(self).rules@.len();
                        assert(0 <= j < kk);
                        assert((self.rules@[old(self).rules@.len() + j]).0
                            == intrinsics.keys@[j].product && rule_eq(
                            self.rules@[old(self).rules@.len() + j].1,
                            Rule::Intrinsic(intrinsics.keys@[j]),
                        ));
                        assert(rs[i2] == self.rules@[old(self).rules@.len() + j]);
                        if rs[i2].0 == intr.product && rule_eq(rs[i2].1, rule) {
                            assert(intrinsic_eq(intrinsics.keys@[j], intrinsics.keys@[kk]));
                        }
                    }
                }
            }
            self.insert_rule(intr.product, rule);
            k = k + 1;
        }
    }

    /// Begins the registration of one task; no other registration may
    /// be in progress.
    pub fn task_begin(
        &mut self,
        func: Function,
        product: TypeId,
        can_modify_workunit: bool,
        cacheable: bool,
        name: Vec<u8>,
        desc: Option<Vec<u8>>,
        level: Level,
    )
        requires
            old(self).preparing is None,
        ensures
            final(self).rules == old(self).rules,
            final(self).preparing matches Some(t) && t.product == product
                && t.can_modify_workunit == can_modify_workunit && t.cacheable == cacheable
                && t.clause@.len() == 0 && t.gets@.len() == 0 && t.func == func
                && t.display_info == (DisplayInfo { name, desc, level }),
    {
        self.preparing = Some(
            Task {
                cacheable,
                product,
                can_modify_workunit,
                clause: Vec::new(),
                gets: Vec::new(),
                func,
                display_info: DisplayInfo { name, desc, level },
            },
        );
    }

    /// Adds one awaited get to the task being registered.
    pub fn add_get(&mut self, product: TypeId, subject: TypeId)
        requires
            old(self).preparing is Some,
        ensures
            final(self).rules == old(self).rules,
            final(self).preparing matches Some(t) && old(self).preparing matches Some(ot) && t
                == (Task { gets: t.gets, ..ot }) && t.gets@ == ot.gets@.push(
                Get { product, subject },
            ),
    {
        match &mut self.preparing {
            Some(t) => {
                t.gets.push(Get { product, subject });
            },
            None => {
                proof {
                    assert(false);
                }
            },
        }
    }

    /// Adds one clause entry to the task being registered.
    pub fn add_select(&mut self, product: TypeId)
        requires
            old(self).preparing is Some,
        ensures
            final(self).rules == old(self).rules,
            final(self).preparing matches Some(t) && old(self).preparing matches Some(ot) && t
                == (Task { clause: t.clause, ..ot }) && t.clause@ == ot.clause@.push(product),
    {
        match &mut self.preparing {
            Some(t) => {
                t.clause.push(product);
            },
            None => {
                proof {
                    assert(false);
                }
            },
        }
    }

    /// Ends the registration in progress, moving the finished task
    /// into the registry under its product.
    pub fn task_end(&mut self)
        requires
            old(self).preparing matches Some(t) && !rule_registered(
                old(self).rules@,
                t.product,
                Rule::Task(t),
            ),
        ensures
            final(self).preparing is None,
            old(self).preparing matches Some(t) && final(self).rules@ == old(self).rules@.push(
                (t.product, Rule::Task(t)),
            ),
    {
        let prep = self.preparing.take();
        match prep {
            Some(task) => {
                let product = task.product;
                self.insert_rule(product, Rule::Task(task));
            },
            None => {
                proof {
                    assert(false);
                }
            },
        }
    }

    /// Registers `rule` for `product`; the same rule may not already
    /// stand registered for that product.
    pub fn insert_rule(&mut self, product: TypeId, rule: Rule)
        requires
            !rule_registered(old(self).rules@, product, rule),
        ensures
            final(self).rules@ == old(self).rules@.push((product, rule)),
            final(self).preparing == old(self).preparing,
    {
        self.rules.push((product, rule));
    }
}

} // verus!
