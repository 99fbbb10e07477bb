//! Reachability from `main` over the lowered program: what the generated C
//! has to contain (see [`crate::reach_spec`]).

use vstd::prelude::*;
use crate::ast::{Block, Expr, ExprKind, FieldDecl, MethodDecl, Program, ProgramV, Stmt, StmtKind, arms_v, block_v, classes_v, exprs_v, functions_v, methods_v, names_v, stmts_v};
use crate::text::str_eq;
use crate::reach_spec::{ItemsV, cat, class_item, fill_method, fn_item, intrinsic_item, items_arms, items_block, items_expr, items_fields, items_list, items_stmt, items_stmts, method_item, no_items, fn_lookup, class_lookup, method_in, method_lookup, fn_succ, method_succ, class_succ, ReachV, SeenV, covered, grows, lemma_covered_grows, start_items, universe, names_within, roots, lemma_contains_add, lemma_succ_in_universe, lemma_nodup_within, reach_closed, reached};
use crate::rewrite::pairs_v;

verus! {

/// What a walk over code has collected: worklists of functions, methods and
/// classes to visit, the intrinsics met, and whether optionals or
/// `try`/`catch` were met.
pub struct Work {
    pub fns: Vec<String>,
    pub methods: Vec<(String, String)>,
    pub classes: Vec<String>,
    pub intrinsics: Vec<String>,
    pub uses_opt: bool,
    pub uses_trycatch: bool,
}

impl View for Work {
    type V = ItemsV;

    open spec fn view(&self) -> ItemsV {
        ItemsV {
            fns: names_v(self.fns@),
            methods: pairs_v(self.methods@),
            classes: names_v(self.classes@),
            intrinsics: names_v(self.intrinsics@),
            opt: self.uses_opt,
            trycatch: self.uses_trycatch,
        }
    }
}

proof fn lemma_names_append(a: Seq<String>, b: Seq<String>)
    ensures
        names_v(a + b) == names_v(a) + names_v(b),
{
    assert(names_v(a + b) =~= names_v(a) + names_v(b));
}

proof fn lemma_pairs_append(a: Seq<(String, String)>, b: Seq<(String, String)>)
    ensures
        pairs_v(a + b) == pairs_v(a) + pairs_v(b),
{
    assert(pairs_v(a + b) =~= pairs_v(a) + pairs_v(b));
}

impl Work {
    /// Nothing collected.
    pub fn new() -> (w: Work)
        ensures
            w@ == no_items(),
    {
        let w = Work {
            fns: Vec::new(),
            methods: Vec::new(),
            classes: Vec::new(),
            intrinsics: Vec::new(),
            uses_opt: false,
            uses_trycatch: false,
        };
        assert(w@.fns =~= Seq::<Seq<char>>::empty());
        assert(w@.methods =~= Seq::<(Seq<char>, Seq<char>)>::empty());
        assert(w@.classes =~= Seq::<Seq<char>>::empty());
        assert(w@.intrinsics =~= Seq::<Seq<char>>::empty());
        w
    }

    /// Append what `other` collected.
    pub fn absorb(&mut self, other: Work)
        ensures
            final(self)@ == cat(old(self)@, other@),
    {
        let mut o = other;
        proof {
            lemma_names_append(self.fns@, o.fns@);
            lemma_pairs_append(self.methods@, o.methods@);
            lemma_names_append(self.classes@, o.classes@);
            lemma_names_append(self.intrinsics@, o.intrinsics@);
        }
        self.fns.append(&mut o.fns);
        self.methods.append(&mut o.methods);
        self.classes.append(&mut o.classes);
        self.intrinsics.append(&mut o.intrinsics);
        self.uses_opt = self.uses_opt || o.uses_opt;
        self.uses_trycatch = self.uses_trycatch || o.uses_trycatch;
    }

    fn with_fn(n: &String) -> (w: Work)
        ensures
            w@ == fn_item(n@),
    {
        let mut w = Work::new();
        w.fns.push(n.clone());
        assert(w@.fns =~= seq![n@]);
        w
    }

    fn with_method(c: &String, m: String) -> (w: Work)
        ensures
            w@ == method_item(c@, m@),
    {
        let mut w = Work::new();
        w.methods.push((c.clone(), m));
        assert(w@.methods =~= seq![(c@, m@)]);
        w
    }

    fn with_class(c: &String) -> (w: Work)
        ensures
            w@ == class_item(c@),
    {
        let mut w = Work::new();
        w.classes.push(c.clone());
        assert(w@.classes =~= seq![c@]);
        w
    }

    fn with_intrinsic(n: &String) -> (w: Work)
        ensures
            w@ == intrinsic_item(n@),
    {
        let mut w = Work::new();
        w.intrinsics.push(n.clone());
        assert(w@.intrinsics =~= seq![n@]);
        w
    }

    fn with_flags(opt: bool, trycatch: bool) -> (w: Work)
        ensures
            w@ == (ItemsV { opt, trycatch, ..no_items() }),
    {
        let mut w = Work::new();
        w.uses_opt = opt;
        w.uses_trycatch = trycatch;
        w
    }
}

/// What an expression mentions.
#[verifier::rlimit(40)]
#[verifier::spinoff_prover]
fn walk_expr(e: &Expr) -> (w: Work)
    ensures
        w@ == items_expr(e@),
    decreases e, 1nat,
{
    match &e.kind {
        ExprKind::Call { name, args } => {
            let mut w = Work::with_fn(name);
            w.absorb(walk_list(args));
            w
        },
        ExprKind::GenericCall { name, args, .. } => {
            let mut w = Work::with_fn(name);
            w.absorb(walk_list(args));
            w
        },
        ExprKind::MethodCall { recv, args, .. } => {
            let mut w = walk_expr(recv);
            w.absorb(walk_list(args));
            w
        },
        ExprKind::CoreMethodCall { class, name, recv, args } => {
            let mut w = Work::with_method(class, name.clone());
            w.absorb(walk_expr(recv));
            w.absorb(walk_list(args));
            w
        },
        ExprKind::New { class, args } => {
            let mut w = Work::with_class(class);
            w.absorb(walk_list(args));
            w
        },
        ExprKind::ContainerLit { class, is_array, elems } => {
            let mut w = Work::with_class(class);
            let m = if *is_array { crate::text::lit_string("set") } else { crate::text::lit_string("push") };
            assert(m@ == fill_method(*is_array));
            w.absorb(Work::with_method(class, m));
            w.absorb(walk_list(elems));
            w
        },
        ExprKind::BufAlloc { size, .. } => walk_expr(size),
        ExprKind::ArrayLit(elems) => walk_list(elems),
        ExprKind::OptWrap { expr, .. } => {
            let mut w = Work::with_flags(true, false);
            w.absorb(walk_expr(expr));
            w
        },
        ExprKind::OptUnwrap { expr, .. } => {
            let mut w = Work::with_flags(true, false);
            w.absorb(walk_expr(expr));
            w
        },
        ExprKind::OptHas { expr, .. } => {
            let mut w = Work::with_flags(true, false);
            w.absorb(walk_expr(expr));
            w
        },
        ExprKind::FieldAccess { recv, .. } => walk_expr(recv),
        ExprKind::Index { recv, index } => {
            let mut w = walk_expr(recv);
            w.absorb(walk_expr(index));
            w
        },
        ExprKind::IntrinsicCall { name, args } => {
            let mut w = Work::with_intrinsic(name);
            w.absorb(walk_list(args));
            w
        },
        ExprKind::Binary { lhs, rhs, .. } => {
            let mut w = walk_expr(lhs);
            w.absorb(walk_expr(rhs));
            w
        },
        ExprKind::Unary { operand, .. } => walk_expr(operand),
        ExprKind::OptNone { .. } => Work::with_flags(true, false),
        _ => Work::new(),
    }
}

/// What a list of expressions mentions, in order.
fn walk_list(v: &Vec<Expr>) -> (w: Work)
    ensures
        w@ == items_list(exprs_v(v@), v@.len()),
    decreases v, 0nat,
{
    let ghost sv = exprs_v(v@);
    let mut w = Work::new();
    let mut i: usize = 0;
    while i < v.len()
        invariant
            i <= v@.len(),
            sv == exprs_v(v@),
            w@ == items_list(sv, i as nat),
        decreases v@.len() - i,
    {
        assert(sv[i as int] == v@[i as int]@);
        assert(decreases_to!(v => v@[i as int]));
        w.absorb(walk_expr(&v[i]));
        i += 1;
    }
    w
}

/// What a block mentions.
fn walk_block(b: &Block) -> (w: Work)
    ensures
        w@ == items_block(block_v(*b)),
    decreases b, 1nat,
{
    walk_stmts(&b.stmts)
}

/// What a statement mentions.
#[verifier::rlimit(40)]
#[verifier::spinoff_prover]
fn walk_stmt(st: &Stmt) -> (w: Work)
    ensures
        w@ == items_stmt(st@),
    decreases st, 1nat,
{
    match &st.kind {
        StmtKind::VarDecl { init, .. } => walk_expr(init),
        StmtKind::Assign { target, value, .. } => {
            let mut w = walk_expr(target);
            w.absorb(walk_expr(value));
            w
        },
        StmtKind::IncDec { target, .. } => walk_expr(target),
        StmtKind::ExprStmt(x) => walk_expr(x),
        StmtKind::Return(v) => match v {
            Some(x) => walk_expr(x),
            None => Work::new(),
        },
        StmtKind::If { arms, else_block } => {
            let mut w = walk_arms(arms);
            match else_block {
                Some(b) => w.absorb(walk_block(b)),
                None => w.absorb(Work::new()),
            }
            w
        },
        StmtKind::While { cond, body } => {
            let mut w = walk_expr(cond);
            w.absorb(walk_block(body));
            w
        },
        StmtKind::ForC { init, cond, step, body, .. } => {
            let mut w = walk_expr(init);
            w.absorb(walk_expr(cond));
            w.absorb(walk_stmt(step));
            w.absorb(walk_block(body));
            w
        },
        StmtKind::ForIn { iterable, body, .. } => {
            let mut w = walk_expr(iterable);
            w.absorb(walk_block(body));
            w
        },
        StmtKind::Scope(b) => walk_block(b),
        StmtKind::TryCatch { body, catch_body, .. } => {
            let mut w = Work::with_flags(false, true);
            w.absorb(walk_block(body));
            w.absorb(walk_block(catch_body));
            w
        },
        _ => Work::new(),
    }
}

/// What a list of statements mentions, in order.
fn walk_stmts(v: &Vec<Stmt>) -> (w: Work)
    ensures
        w@ == items_stmts(stmts_v(v@), v@.len()),
    decreases v, 0nat,
{
    let ghost sv = stmts_v(v@);
    let mut w = Work::new();
    let mut i: usize = 0;
    while i < v.len()
        invariant
            i <= v@.len(),
            sv == stmts_v(v@),
            w@ == items_stmts(sv, i as nat),
        decreases v@.len() - i,
    {
        assert(sv[i as int] == v@[i as int]@);
        assert(decreases_to!(v => v@[i as int]));
        w.absorb(walk_stmt(&v[i]));
        i += 1;
    }
    w
}

/// What the arms of an `if` chain mention, in order.
fn walk_arms(v: &Vec<(Expr, Block)>) -> (w: Work)
    ensures
        w@ == items_arms(arms_v(v@), v@.len()),
    decreases v, 0nat,
{
    let ghost av = arms_v(v@);
    let mut w = Work::new();
    let mut i: usize = 0;
    while i < v.len()
        invariant
            i <= v@.len(),
            av == arms_v(v@),
            w@ == items_arms(av, i as nat),
        decreases v@.len() - i,
    {
        assert(av[i as int] == (v@[i as int].0@, block_v(v@[i as int].1)));
        assert(decreases_to!(v => v@[i as int]));
        let mut a = walk_expr(&v[i].0);
        a.absorb(walk_stmts(&v[i].1.stmts));
        w.absorb(a);
        i += 1;
    }
    w
}

/// What the default values of fields mention, in order.
fn walk_fields(v: &Vec<FieldDecl>) -> (w: Work)
    ensures
        w@ == items_fields(crate::ast::fields_v(v@), v@.len()),
{
    let ghost fv = crate::ast::fields_v(v@);
    let mut w = Work::new();
    let mut i: usize = 0;
    while i < v.len()
        invariant
            i <= v@.len(),
            fv == crate::ast::fields_v(v@),
            w@ == items_fields(fv, i as nat),
        decreases v@.len() - i,
    {
        assert(fv[i as int] == v@[i as int]@);
        w.absorb(walk_expr(&v[i].default));
        i += 1;
    }
    w
}

/// Where the function of that name is (the last one, when there are several).
fn find_fn(p: &Program, name: &str) -> (r: Option<usize>)
    ensures
        match fn_lookup(functions_v(p.functions@), name@) {
            Some(f) => r matches Some(i) && i < p.functions@.len() && p.functions@[i as int]@ == f,
            None => r is None,
        },
{
    let ghost fv = functions_v(p.functions@);
    let mut i: usize = p.functions.len();
    assert(fv.take(i as int) =~= fv);
    while i > 0
        invariant
            i <= p.functions@.len(),
            fv == functions_v(p.functions@),
            fn_lookup(fv, name@) == fn_lookup(fv.take(i as int), name@),
        decreases i,
    {
        let ghost t = fv.take(i as int);
        assert(t.drop_last() =~= fv.take(i - 1));
        assert(t.last() == p.functions@[i - 1]@);
        if str_eq(p.functions[i - 1].name.as_str(), name) {
            return Some(i - 1);
        }
        i -= 1;
    }
    None
}

/// Where the class of that name is (the last one, when there are several).
fn find_class(p: &Program, name: &str) -> (r: Option<usize>)
    ensures
        match class_lookup(classes_v(p.classes@), name@) {
            Some(c) => r matches Some(i) && i < p.classes@.len() && p.classes@[i as int]@ == c,
            None => r is None,
        },
{
    let ghost cv = classes_v(p.classes@);
    let mut i: usize = p.classes.len();
    assert(cv.take(i as int) =~= cv);
    while i > 0
        invariant
            i <= p.classes@.len(),
            cv == classes_v(p.classes@),
            class_lookup(cv, name@) == class_lookup(cv.take(i as int), name@),
        decreases i,
    {
        let ghost t = cv.take(i as int);
        assert(t.drop_last() =~= cv.take(i - 1));
        assert(t.last() == p.classes@[i - 1]@);
        if str_eq(p.classes[i - 1].name.as_str(), name) {
            return Some(i - 1);
        }
        i -= 1;
    }
    None
}

/// Where method `m` is among a class's methods (the last one so named).
fn find_method_in(ms: &Vec<MethodDecl>, m: &str) -> (r: Option<usize>)
    ensures
        match method_in(methods_v(ms@), m@) {
            Some(md) => r matches Some(i) && i < ms@.len() && ms@[i as int]@ == md,
            None => r is None,
        },
{
    let ghost mv = methods_v(ms@);
    let mut i: usize = ms.len();
    assert(mv.take(i as int) =~= mv);
    while i > 0
        invariant
            i <= ms@.len(),
            mv == methods_v(ms@),
            method_in(mv, m@) == method_in(mv.take(i as int), m@),
        decreases i,
    {
        let ghost t = mv.take(i as int);
        assert(t.drop_last() =~= mv.take(i - 1));
        assert(t.last() == ms@[i - 1]@);
        if str_eq(ms[i - 1].name.as_str(), m) {
            return Some(i - 1);
        }
        i -= 1;
    }
    None
}

/// Where method `m` of class `c` is: in the last class so named that has one.
fn find_method(p: &Program, c: &str, m: &str) -> (r: Option<(usize, usize)>)
    ensures
        match method_lookup(classes_v(p.classes@), c@, m@) {
            Some(md) => r matches Some((i, j)) && i < p.classes@.len() && j < p.classes@[i as int].methods@.len()
                && p.classes@[i as int].methods@[j as int]@ == md,
            None => r is None,
        },
{
    let ghost cv = classes_v(p.classes@);
    let mut i: usize = p.classes.len();
    assert(cv.take(i as int) =~= cv);
    while i > 0
        invariant
            i <= p.classes@.len(),
            cv == classes_v(p.classes@),
            method_lookup(cv, c@, m@) == method_lookup(cv.take(i as int), c@, m@),
        decreases i,
    {
        let ghost t = cv.take(i as int);
        assert(t.drop_last() =~= cv.take(i - 1));
        assert(t.last() == p.classes@[i - 1]@);
        if str_eq(p.classes[i - 1].name.as_str(), c) {
            match find_method_in(&p.classes[i - 1].methods, m) {
                Some(j) => return Some((i - 1, j)),
                None => {},
            }
        }
        i -= 1;
    }
    None
}

/// What running function `name` mentions.
fn fn_succ_of(p: &Program, name: &str) -> (w: Work)
    ensures
        w@ == fn_succ(p@, name@),
{
    match find_fn(p, name) {
        Some(i) => walk_block(&p.functions[i].body),
        None => Work::new(),
    }
}

/// What running method `m` of class `c` mentions.
fn method_succ_of(p: &Program, c: &str, m: &str) -> (w: Work)
    ensures
        w@ == method_succ(p@, c@, m@),
{
    match find_method(p, c, m) {
        Some((i, j)) => walk_block(&p.classes[i].methods[j].body),
        None => Work::new(),
    }
}

/// What constructing class `c` runs.
fn class_succ_of(p: &Program, c: &str) -> (w: Work)
    ensures
        w@ == class_succ(p@, c@),
{
    match find_class(p, c) {
        Some(i) => {
            let cd = &p.classes[i];
            let mut w = walk_fields(&cd.fields);
            match &cd.ctor {
                Some(ct) => w.absorb(walk_block(&ct.body)),
                None => w.absorb(Work::new()),
            }
            w
        },
        None => Work::new(),
    }
}

/// The result of reachability: what the generated program must contain.
pub struct Reach {
    pub fns: Vec<String>,
    pub methods: Vec<(String, String)>,
    pub instantiated: Vec<String>,
    pub intrinsics: Vec<String>,
    pub uses_opt: bool,
    pub uses_trycatch: bool,
}

impl View for Reach {
    type V = ReachV;

    open spec fn view(&self) -> ReachV {
        ReachV {
            fns: names_v(self.fns@),
            methods: pairs_v(self.methods@),
            classes: names_v(self.instantiated@),
            intrinsics: names_v(self.intrinsics@),
            opt: self.uses_opt,
            trycatch: self.uses_trycatch,
        }
    }
}

/// Is `s` among `v`?
pub fn has_name(v: &Vec<String>, s: &str) -> (b: bool)
    ensures
        b == names_v(v@).contains(s@),
{
    let mut i: usize = 0;
    while i < v.len()
        invariant
            i <= v@.len(),
            forall|j: int| 0 <= j < i ==> v@[j]@ != s@,
        decreases v@.len() - i,
    {
        if str_eq(v[i].as_str(), s) {
            assert(names_v(v@)[i as int] == s@);
            return true;
        }
        i += 1;
    }
    assert(!names_v(v@).contains(s@)) by {
        if names_v(v@).contains(s@) {
            let j = choose|j: int| 0 <= j < names_v(v@).len() && names_v(v@)[j] == s@;
            assert(v@[j]@ == s@);
        }
    }
    false
}

/// Is the pair (`a`, `b`) among `v`?
pub fn has_pair(v: &Vec<(String, String)>, a: &str, b: &str) -> (r: bool)
    ensures
        r == pairs_v(v@).contains((a@, b@)),
{
    let mut i: usize = 0;
    while i < v.len()
        invariant
            i <= v@.len(),
            forall|j: int| 0 <= j < i ==> (v@[j].0@, v@[j].1@) != (a@, b@),
        decreases v@.len() - i,
    {
        if str_eq(v[i].0.as_str(), a) && str_eq(v[i].1.as_str(), b) {
            assert(pairs_v(v@)[i as int] == (a@, b@));
            return true;
        }
        i += 1;
    }
    assert(!pairs_v(v@).contains((a@, b@))) by {
        if pairs_v(v@).contains((a@, b@)) {
            let j = choose|j: int| 0 <= j < pairs_v(v@).len() && pairs_v(v@)[j] == (a@, b@);
            assert((v@[j].0@, v@[j].1@) == (a@, b@));
        }
    }
    false
}

pub open spec fn seen_v(rf: Seq<String>, rm: Seq<(String, String)>, rc: Seq<String>) -> SeenV {
    SeenV { fns: names_v(rf), methods: pairs_v(rm), classes: names_v(rc) }
}

/// All of `a`'s functions, methods and classes are in `u`.
pub open spec fn seen_within(a: SeenV, u: ItemsV) -> bool {
    &&& forall|x: Seq<char>| #[trigger] a.fns.contains(x) ==> u.fns.contains(x)
    &&& forall|x: (Seq<char>, Seq<char>)| #[trigger] a.methods.contains(x) ==> u.methods.contains(x)
    &&& forall|x: Seq<char>| #[trigger] a.classes.contains(x) ==> u.classes.contains(x)
}

/// What the walk keeps true: nothing is visited twice, everything met is
/// in the universe, and whatever the start or a visited item mentions is
/// visited or waiting.
pub open spec fn walk_inv(p: ProgramV, argv: bool, r: SeenV, w: ItemsV) -> bool {
    &&& r.fns.no_duplicates()
    &&& r.methods.no_duplicates()
    &&& r.classes.no_duplicates()
    &&& seen_within(r, universe(p))
    &&& names_within(w, universe(p))
    &&& covered(start_items(argv), r, w)
    &&& forall|x: Seq<char>| #[trigger] r.fns.contains(x) ==> covered(fn_succ(p, x), r, w)
    &&& forall|x: (Seq<char>, Seq<char>)| #[trigger] r.methods.contains(x) ==> covered(method_succ(p, x.0, x.1), r, w)
    &&& forall|x: Seq<char>| #[trigger] r.classes.contains(x) ==> covered(class_succ(p, x), r, w)
}

proof fn lemma_inv_grows(p: ProgramV, argv: bool, r: SeenV, w: ItemsV, r2: SeenV, w2: ItemsV)
    requires
        walk_inv(p, argv, r, w),
        grows(r, w, r2, w2),
    ensures
        covered(start_items(argv), r2, w2),
        forall|x: Seq<char>| #[trigger] r.fns.contains(x) ==> covered(fn_succ(p, x), r2, w2),
        forall|x: (Seq<char>, Seq<char>)| #[trigger] r.methods.contains(x) ==> covered(method_succ(p, x.0, x.1), r2, w2),
        forall|x: Seq<char>| #[trigger] r.classes.contains(x) ==> covered(class_succ(p, x), r2, w2),
{
    lemma_covered_grows(start_items(argv), r, w, r2, w2);
    assert forall|x: Seq<char>| #[trigger] r.fns.contains(x) implies covered(fn_succ(p, x), r2, w2) by {
        lemma_covered_grows(fn_succ(p, x), r, w, r2, w2);
    }
    assert forall|x: (Seq<char>, Seq<char>)| #[trigger] r.methods.contains(x) implies covered(method_succ(p, x.0, x.1), r2, w2) by {
        lemma_covered_grows(method_succ(p, x.0, x.1), r, w, r2, w2);
    }
    assert forall|x: Seq<char>| #[trigger] r.classes.contains(x) implies covered(class_succ(p, x), r2, w2) by {
        lemma_covered_grows(class_succ(p, x), r, w, r2, w2);
    }
}

proof fn lemma_drop_last_contains<A>(s: Seq<A>, y: A)
    requires
        s.len() > 0,
    ensures
        s.contains(y) ==> s.drop_last().contains(y) || y == s.last(),
        s.drop_last().contains(y) ==> s.contains(y),
{
    if s.contains(y) {
        let i = choose|i: int| 0 <= i < s.len() && s[i] == y;
        if i < s.len() - 1 {
            assert(s.drop_last()[i] == y);
        }
    }
    if s.drop_last().contains(y) {
        let i = choose|i: int| 0 <= i < s.drop_last().len() && s.drop_last()[i] == y;
        assert(s[i] == y);
    }
}

proof fn lemma_push_contains<A>(s: Seq<A>, x: A, y: A)
    ensures
        s.push(x).contains(y) <==> s.contains(y) || y == x,
{
    if s.contains(y) {
        let i = choose|i: int| 0 <= i < s.len() && s[i] == y;
        assert(s.push(x)[i] == y);
    }
    if y == x {
        assert(s.push(x)[s.len() as int] == y);
    }
    if s.push(x).contains(y) {
        let i = choose|i: int| 0 <= i < s.push(x).len() && s.push(x)[i] == y;
        if i < s.len() {
            assert(s[i] == y);
        }
    }
}

proof fn lemma_cat_contains<A>(a: Seq<A>, b: Seq<A>, y: A)
    ensures
        (a + b).contains(y) <==> a.contains(y) || b.contains(y),
{
    lemma_contains_add(a, b, y);
    if (a + b).contains(y) {
        let i = choose|i: int| 0 <= i < (a + b).len() && (a + b)[i] == y;
        if i < a.len() {
            assert(a[i] == y);
        } else {
            assert(b[i - a.len()] == y);
        }
    }
}

proof fn lemma_cat_covers(w1: ItemsV, succ: ItemsV)
    ensures
        forall|y: Seq<char>| #[trigger] (w1.fns + succ.fns).contains(y) <==> w1.fns.contains(y) || succ.fns.contains(y),
        forall|y: (Seq<char>, Seq<char>)| #[trigger] (w1.methods + succ.methods).contains(y) <==> w1.methods.contains(y) || succ.methods.contains(y),
        forall|y: Seq<char>| #[trigger] (w1.classes + succ.classes).contains(y) <==> w1.classes.contains(y) || succ.classes.contains(y),
        forall|y: Seq<char>| #[trigger] (w1.intrinsics + succ.intrinsics).contains(y) <==> w1.intrinsics.contains(y) || succ.intrinsics.contains(y),
{
    assert forall|y: Seq<char>| #[trigger] (w1.fns + succ.fns).contains(y) <==> w1.fns.contains(y) || succ.fns.contains(y) by {
        lemma_cat_contains(w1.fns, succ.fns, y);
    }
    assert forall|y: (Seq<char>, Seq<char>)| #[trigger] (w1.methods + succ.methods).contains(y) <==> w1.methods.contains(y) || succ.methods.contains(y) by {
        lemma_cat_contains(w1.methods, succ.methods, y);
    }
    assert forall|y: Seq<char>| #[trigger] (w1.classes + succ.classes).contains(y) <==> w1.classes.contains(y) || succ.classes.contains(y) by {
        lemma_cat_contains(w1.classes, succ.classes, y);
    }
    assert forall|y: Seq<char>| #[trigger] (w1.intrinsics + succ.intrinsics).contains(y) <==> w1.intrinsics.contains(y) || succ.intrinsics.contains(y) by {
        lemma_cat_contains(w1.intrinsics, succ.intrinsics, y);
    }
}

/// Popping a function that was already visited keeps the invariant.
proof fn lemma_step_fn_seen(p: ProgramV, argv: bool, r: SeenV, w: ItemsV)
    requires
        walk_inv(p, argv, r, w),
        w.fns.len() > 0,
        r.fns.contains(w.fns.last()),
    ensures
        walk_inv(p, argv, r, ItemsV { fns: w.fns.drop_last(), ..w }),
{
    let w2 = ItemsV { fns: w.fns.drop_last(), ..w };
    assert forall|y: Seq<char>| #[trigger] w.fns.contains(y) implies r.fns.contains(y) || w2.fns.contains(y) by {
        lemma_drop_last_contains(w.fns, y);
    }
    assert forall|y: Seq<char>| #[trigger] w2.fns.contains(y) implies universe(p).fns.contains(y) by {
        lemma_drop_last_contains(w.fns, y);
    }
    assert(grows(r, w, r, w2));
    lemma_inv_grows(p, argv, r, w, r, w2);
}

/// Visiting a new function: mark it and queue what it mentions.
proof fn lemma_step_fn_new(p: ProgramV, argv: bool, r: SeenV, w: ItemsV, succ: ItemsV)
    requires
        walk_inv(p, argv, r, w),
        w.fns.len() > 0,
        !r.fns.contains(w.fns.last()),
        succ == fn_succ(p, w.fns.last()),
    ensures
        walk_inv(p, argv, SeenV { fns: r.fns.push(w.fns.last()), ..r }, cat(ItemsV { fns: w.fns.drop_last(), ..w }, succ)),
{
    let x = w.fns.last();
    let w1 = ItemsV { fns: w.fns.drop_last(), ..w };
    let r2 = SeenV { fns: r.fns.push(x), ..r };
    let w2 = cat(w1, succ);
    lemma_cat_covers(w1, succ);
    lemma_succ_in_universe(p, x, x);
    assert forall|y: Seq<char>| #[trigger] r.fns.contains(y) implies r2.fns.contains(y) by {
        lemma_push_contains(r.fns, x, y);
    }
    assert forall|y: Seq<char>| #[trigger] w.fns.contains(y) implies r2.fns.contains(y) || w2.fns.contains(y) by {
        lemma_drop_last_contains(w.fns, y);
        lemma_push_contains(r.fns, x, y);
    }
    assert(grows(r, w, r2, w2));
    lemma_inv_grows(p, argv, r, w, r2, w2);
    assert(covered(succ, r2, w2));
    assert forall|y: Seq<char>| #[trigger] r2.fns.contains(y) implies covered(fn_succ(p, y), r2, w2) by {
        lemma_push_contains(r.fns, x, y);
    }
    assert forall|y: Seq<char>| #[trigger] r2.fns.contains(y) implies universe(p).fns.contains(y) by {
        lemma_push_contains(r.fns, x, y);
        assert(w.fns.contains(x));
    }
    assert forall|y: Seq<char>| #[trigger] w2.fns.contains(y) implies universe(p).fns.contains(y) by {
        lemma_drop_last_contains(w.fns, y);
    }
    assert(r2.fns.no_duplicates()) by {
        assert forall|i: int, j: int| 0 <= i < j < r2.fns.len() implies r2.fns[i] != r2.fns[j] by {
            if j == r.fns.len() {
                assert(r.fns[i] == r2.fns[i]);
            }
        }
    }
}

/// Popping a method that was already visited keeps the invariant.
proof fn lemma_step_method_seen(p: ProgramV, argv: bool, r: SeenV, w: ItemsV)
    requires
        walk_inv(p, argv, r, w),
        w.methods.len() > 0,
        r.methods.contains(w.methods.last()),
    ensures
        walk_inv(p, argv, r, ItemsV { methods: w.methods.drop_last(), ..w }),
{
    let w2 = ItemsV { methods: w.methods.drop_last(), ..w };
    assert forall|y: (Seq<char>, Seq<char>)| #[trigger] w.methods.contains(y) implies r.methods.contains(y) || w2.methods.contains(y) by {
        lemma_drop_last_contains(w.methods, y);
    }
    assert forall|y: (Seq<char>, Seq<char>)| #[trigger] w2.methods.contains(y) implies universe(p).methods.contains(y) by {
        lemma_drop_last_contains(w.methods, y);
    }
    assert(grows(r, w, r, w2));
    lemma_inv_grows(p, argv, r, w, r, w2);
}

/// Visiting a new method: mark it and queue what it mentions.
proof fn lemma_step_method_new(p: ProgramV, argv: bool, r: SeenV, w: ItemsV, succ: ItemsV)
    requires
        walk_inv(p, argv, r, w),
        w.methods.len() > 0,
        !r.methods.contains(w.methods.last()),
        succ == method_succ(p, w.methods.last().0, w.methods.last().1),
    ensures
        walk_inv(p, argv, SeenV { methods: r.methods.push(w.methods.last()), ..r }, cat(ItemsV { methods: w.methods.drop_last(), ..w }, succ)),
{
    let x = w.methods.last();
    let w1 = ItemsV { methods: w.methods.drop_last(), ..w };
    let r2 = SeenV { methods: r.methods.push(x), ..r };
    let w2 = cat(w1, succ);
    lemma_cat_covers(w1, succ);
    lemma_succ_in_universe(p, x.0, x.1);
    assert forall|y: (Seq<char>, Seq<char>)| #[trigger] r.methods.contains(y) implies r2.methods.contains(y) by {
        lemma_push_contains(r.methods, x, y);
    }
    assert forall|y: (Seq<char>, Seq<char>)| #[trigger] w.methods.contains(y) implies r2.methods.contains(y) || w2.methods.contains(y) by {
        lemma_drop_last_contains(w.methods, y);
        lemma_push_contains(r.methods, x, y);
    }
    assert(grows(r, w, r2, w2));
    lemma_inv_grows(p, argv, r, w, r2, w2);
    assert(covered(succ, r2, w2));
    assert forall|y: (Seq<char>, Seq<char>)| #[trigger] r2.methods.contains(y) implies covered(method_succ(p, y.0, y.1), r2, w2) by {
        lemma_push_contains(r.methods, x, y);
    }
    assert forall|y: (Seq<char>, Seq<char>)| #[trigger] r2.methods.contains(y) implies universe(p).methods.contains(y) by {
        lemma_push_contains(r.methods, x, y);
        assert(w.methods.contains(x));
    }
    assert forall|y: (Seq<char>, Seq<char>)| #[trigger] w2.methods.contains(y) implies universe(p).methods.contains(y) by {
        lemma_drop_last_contains(w.methods, y);
    }
    assert(r2.methods.no_duplicates()) by {
        assert forall|i: int, j: int| 0 <= i < j < r2.methods.len() implies r2.methods[i] != r2.methods[j] by {
            if j == r.methods.len() {
                assert(r.methods[i] == r2.methods[i]);
            }
        }
    }
}

/// Popping a class that was already visited keeps the invariant.
proof fn lemma_step_class_seen(p: ProgramV, argv: bool, r: SeenV, w: ItemsV)
    requires
        walk_inv(p, argv, r, w),
        w.classes.len() > 0,
        r.classes.contains(w.classes.last()),
    ensures
        walk_inv(p, argv, r, ItemsV { classes: w.classes.drop_last(), ..w }),
{
    let w2 = ItemsV { classes: w.classes.drop_last(), ..w };
    assert forall|y: Seq<char>| #[trigger] w.classes.contains(y) implies r.classes.contains(y) || w2.classes.contains(y) by {
        lemma_drop_last_contains(w.classes, y);
    }
    assert forall|y: Seq<char>| #[trigger] w2.classes.contains(y) implies universe(p).classes.contains(y) by {
        lemma_drop_last_contains(w.classes, y);
    }
    assert(grows(r, w, r, w2));
    lemma_inv_grows(p, argv, r, w, r, w2);
}

/// Visiting a new class: mark it and queue what constructing it runs.
proof fn lemma_step_class_new(p: ProgramV, argv: bool, r: SeenV, w: ItemsV, succ: ItemsV)
    requires
        walk_inv(p, argv, r, w),
        w.classes.len() > 0,
        !r.classes.contains(w.classes.last()),
        succ == class_succ(p, w.classes.last()),
    ensures
        walk_inv(p, argv, SeenV { classes: r.classes.push(w.classes.last()), ..r }, cat(ItemsV { classes: w.classes.drop_last(), ..w }, succ)),
{
    let x = w.classes.last();
    let w1 = ItemsV { classes: w.classes.drop_last(), ..w };
    let r2 = SeenV { classes: r.classes.push(x), ..r };
    let w2 = cat(w1, succ);
    lemma_cat_covers(w1, succ);
    lemma_succ_in_universe(p, x, x);
    assert forall|y: Seq<char>| #[trigger] r.classes.contains(y) implies r2.classes.contains(y) by {
        lemma_push_contains(r.classes, x, y);
    }
    assert forall|y: Seq<char>| #[trigger] w.classes.contains(y) implies r2.classes.contains(y) || w2.classes.contains(y) by {
        lemma_drop_last_contains(w.classes, y);
        lemma_push_contains(r.classes, x, y);
    }
    assert(grows(r, w, r2, w2));
    lemma_inv_grows(p, argv, r, w, r2, w2);
    assert(covered(succ, r2, w2));
    assert forall|y: Seq<char>| #[trigger] r2.classes.contains(y) implies covered(class_succ(p, y), r2, w2) by {
        lemma_push_contains(r.classes, x, y);
    }
    assert forall|y: Seq<char>| #[trigger] r2.classes.contains(y) implies universe(p).classes.contains(y) by {
        lemma_push_contains(r.classes, x, y);
        assert(w.classes.contains(x));
    }
    assert forall|y: Seq<char>| #[trigger] w2.classes.contains(y) implies universe(p).classes.contains(y) by {
        lemma_drop_last_contains(w.classes, y);
    }
    assert(r2.classes.no_duplicates()) by {
        assert forall|i: int, j: int| 0 <= i < j < r2.classes.len() implies r2.classes[i] != r2.classes[j] by {
            if j == r.classes.len() {
                assert(r.classes[i] == r2.classes[i]);
            }
        }
    }
}

proof fn lemma_covered_done(s: ItemsV, r: SeenV, w: ItemsV)
    requires
        covered(s, r, w),
        w.fns.len() == 0,
        w.methods.len() == 0,
        w.classes.len() == 0,
    ensures
        reached(s, ReachV { fns: r.fns, methods: r.methods, classes: r.classes, intrinsics: w.intrinsics, opt: w.opt, trycatch: w.trycatch }),
{
    assert forall|x: Seq<char>| #[trigger] s.fns.contains(x) implies r.fns.contains(x) by {
        if w.fns.contains(x) {
            let i = choose|i: int| 0 <= i < w.fns.len() && w.fns[i] == x;
        }
    }
    assert forall|x: (Seq<char>, Seq<char>)| #[trigger] s.methods.contains(x) implies r.methods.contains(x) by {
        if w.methods.contains(x) {
            let i = choose|i: int| 0 <= i < w.methods.len() && w.methods[i] == x;
        }
    }
    assert forall|x: Seq<char>| #[trigger] s.classes.contains(x) implies r.classes.contains(x) by {
        if w.classes.contains(x) {
            let i = choose|i: int| 0 <= i < w.classes.len() && w.classes[i] == x;
        }
    }
}

/// With nothing left waiting, the visited items are closed.
proof fn lemma_walk_done(p: ProgramV, argv: bool, r: SeenV, w: ItemsV)
    requires
        walk_inv(p, argv, r, w),
        w.fns.len() == 0,
        w.methods.len() == 0,
        w.classes.len() == 0,
    ensures
        reach_closed(p, argv, ReachV { fns: r.fns, methods: r.methods, classes: r.classes, intrinsics: w.intrinsics, opt: w.opt, trycatch: w.trycatch }),
{
    let rv = ReachV { fns: r.fns, methods: r.methods, classes: r.classes, intrinsics: w.intrinsics, opt: w.opt, trycatch: w.trycatch };
    lemma_covered_done(start_items(argv), r, w);
    assert forall|x: Seq<char>| #[trigger] rv.fns.contains(x) implies reached(fn_succ(p, x), rv) by {
        lemma_covered_done(fn_succ(p, x), r, w);
    }
    assert forall|x: (Seq<char>, Seq<char>)| #[trigger] rv.methods.contains(x) implies reached(method_succ(p, x.0, x.1), rv) by {
        lemma_covered_done(method_succ(p, x.0, x.1), r, w);
    }
    assert forall|x: Seq<char>| #[trigger] rv.classes.contains(x) implies reached(class_succ(p, x), rv) by {
        lemma_covered_done(class_succ(p, x), r, w);
    }
}

/// Everything visited or waiting is in `r2`.
pub open spec fn inside(r: SeenV, w: ItemsV, r2: ReachV) -> bool {
    &&& forall|x: Seq<char>| #[trigger] r.fns.contains(x) ==> r2.fns.contains(x)
    &&& forall|x: (Seq<char>, Seq<char>)| #[trigger] r.methods.contains(x) ==> r2.methods.contains(x)
    &&& forall|x: Seq<char>| #[trigger] r.classes.contains(x) ==> r2.classes.contains(x)
    &&& reached(w, r2)
}

proof fn lemma_inside_drop(r: SeenV, w: ItemsV, w2: ItemsV, r2: ReachV)
    requires
        inside(r, w, r2),
        forall|y: Seq<char>| #[trigger] w2.fns.contains(y) ==> w.fns.contains(y),
        forall|y: (Seq<char>, Seq<char>)| #[trigger] w2.methods.contains(y) ==> w.methods.contains(y),
        forall|y: Seq<char>| #[trigger] w2.classes.contains(y) ==> w.classes.contains(y),
        w2.intrinsics == w.intrinsics,
        w2.opt == w.opt,
        w2.trycatch == w.trycatch,
    ensures
        inside(r, w2, r2),
{
}

/// Visiting what waits at the top, and queueing its successors, stays
/// inside any closed set.
proof fn lemma_inside_visit(r: SeenV, w1: ItemsV, r_new: SeenV, succ: ItemsV, r2: ReachV)
    requires
        inside(r, w1, r2),
        reached(succ, r2),
        forall|y: Seq<char>| #[trigger] r_new.fns.contains(y) ==> r.fns.contains(y) || r2.fns.contains(y),
        forall|y: (Seq<char>, Seq<char>)| #[trigger] r_new.methods.contains(y) ==> r.methods.contains(y) || r2.methods.contains(y),
        forall|y: Seq<char>| #[trigger] r_new.classes.contains(y) ==> r.classes.contains(y) || r2.classes.contains(y),
    ensures
        inside(r_new, cat(w1, succ), r2),
{
    lemma_cat_covers(w1, succ);
}

/// The last waiting item is in every closed set that holds what waits.
proof fn lemma_inside_last(r: SeenV, w: ItemsV, r2: ReachV)
    requires
        inside(r, w, r2),
    ensures
        w.fns.len() > 0 ==> r2.fns.contains(w.fns.last()),
        w.methods.len() > 0 ==> r2.methods.contains(w.methods.last()),
        w.classes.len() > 0 ==> r2.classes.contains(w.classes.last()),
{
    if w.fns.len() > 0 {
        assert(w.fns.contains(w.fns.last()));
    }
    if w.methods.len() > 0 {
        assert(w.methods.contains(w.methods.last()));
    }
    if w.classes.len() > 0 {
        assert(w.classes.contains(w.classes.last()));
    }
}

proof fn lemma_walk_bounds(p: ProgramV, argv: bool, r: SeenV, w: ItemsV)
    requires
        walk_inv(p, argv, r, w),
    ensures
        r.fns.len() <= universe(p).fns.len(),
        r.methods.len() <= universe(p).methods.len(),
        r.classes.len() <= universe(p).classes.len(),
{
    lemma_nodup_within(r.fns, universe(p).fns);
    lemma_nodup_within(r.methods, universe(p).methods);
    lemma_nodup_within(r.classes, universe(p).classes);
}

/// Everything `main` can reach: a worklist walk from `main` (and, for the
/// `argv` form of `main`, the `Array<String>` it builds) over calls, method
/// calls, constructions, field defaults and constructor bodies.
pub fn compute_reachable(program: &Program, main_takes_argv: bool) -> (r: Reach)
    ensures
        reach_closed(program@, main_takes_argv, r@),
        forall|r2: crate::reach_spec::ReachV| #[trigger] reach_closed(program@, main_takes_argv, r2) ==> crate::reach_spec::reach_within(r@, r2),
{
    let ghost p = program@;
    let ghost argv = main_takes_argv;
    let mut rf: Vec<String> = Vec::new();
    let mut rm: Vec<(String, String)> = Vec::new();
    let mut rc: Vec<String> = Vec::new();
    let mut w = Work::new();
    w.fns.push(crate::text::lit_string("main"));
    if main_takes_argv {
        w.classes.push(crate::text::lit_string("Array<String>"));
        w.methods.push((crate::text::lit_string("Array<String>"), crate::text::lit_string("set")));
    }
    proof {
        reveal_strlit("main");
        reveal_strlit("Array<String>");
        reveal_strlit("set");
        assert(w@.fns =~= start_items(argv).fns);
        assert(w@.methods =~= start_items(argv).methods);
        assert(w@.classes =~= start_items(argv).classes);
        assert(w@.intrinsics =~= start_items(argv).intrinsics);
        assert(seen_v(rf@, rm@, rc@).fns =~= Seq::<Seq<char>>::empty());
        assert(seen_v(rf@, rm@, rc@).methods =~= Seq::<(Seq<char>, Seq<char>)>::empty());
        assert(seen_v(rf@, rm@, rc@).classes =~= Seq::<Seq<char>>::empty());
        lemma_succ_in_universe(p, "main"@, "main"@);
        let ro = roots();
        assert forall|x: Seq<char>| #[trigger] w@.fns.contains(x) implies universe(p).fns.contains(x) by {
            assert(ro.fns.contains(x));
        }
        assert forall|x: (Seq<char>, Seq<char>)| #[trigger] w@.methods.contains(x) implies universe(p).methods.contains(x) by {
            let i = choose|i: int| 0 <= i < w@.methods.len() && w@.methods[i] == x;
            assert(ro.methods[0] == x);
        }
        assert forall|x: Seq<char>| #[trigger] w@.classes.contains(x) implies universe(p).classes.contains(x) by {
            let i = choose|i: int| 0 <= i < w@.classes.len() && w@.classes[i] == x;
            assert(ro.classes[0] == x);
        }
        assert(walk_inv(p, argv, seen_v(rf@, rm@, rc@), w@));
        assert forall|r2: crate::reach_spec::ReachV| #[trigger] reach_closed(p, argv, r2) implies inside(seen_v(rf@, rm@, rc@), w@, r2) by {
            assert(reached(start_items(argv), r2));
        }
    }
    loop
        invariant
            p == program@,
            argv == main_takes_argv,
            walk_inv(p, argv, seen_v(rf@, rm@, rc@), w@),
            forall|r2: crate::reach_spec::ReachV| #[trigger] reach_closed(p, argv, r2) ==> inside(seen_v(rf@, rm@, rc@), w@, r2),
        ensures
            walk_inv(p, argv, seen_v(rf@, rm@, rc@), w@),
            forall|r2: crate::reach_spec::ReachV| #[trigger] reach_closed(p, argv, r2) ==> inside(seen_v(rf@, rm@, rc@), w@, r2),
            w@.fns.len() == 0,
            w@.methods.len() == 0,
            w@.classes.len() == 0,
        decreases
            (universe(p).fns.len() - rf@.len()) + (universe(p).methods.len() - rm@.len()) + (universe(p).classes.len() - rc@.len()),
            w.fns@.len() + w.methods@.len() + w.classes@.len(),
    {
        proof {
            lemma_walk_bounds(p, argv, seen_v(rf@, rm@, rc@), w@);
        }
        let ghost r0 = seen_v(rf@, rm@, rc@);
        let ghost w0 = w@;
        if w.fns.len() > 0 {
            let x = match w.fns.pop() {
                Some(x) => x,
                None => break,
            };
            assert(names_v(w.fns@) =~= w0.fns.drop_last());
            assert(w@ == ItemsV { fns: w0.fns.drop_last(), ..w0 });
            let ghost w1 = w@;
            proof {
                assert forall|r2: crate::reach_spec::ReachV| #[trigger] reach_closed(p, argv, r2) implies inside(r0, w1, r2) by {
                    assert forall|y: Seq<char>| #[trigger] w1.fns.contains(y) implies w0.fns.contains(y) by {
                        lemma_drop_last_contains(w0.fns, y);
                    }
                    lemma_inside_drop(r0, w0, w1, r2);
                }
            }
            if has_name(&rf, x.as_str()) {
                proof {
                    lemma_step_fn_seen(p, argv, r0, w0);
                }
                continue;
            }
            let succ = fn_succ_of(program, x.as_str());
            proof {
                lemma_step_fn_new(p, argv, r0, w0, succ@);
            }
            rf.push(x);
            assert(names_v(rf@) =~= r0.fns.push(w0.fns.last()));
            w.absorb(succ);
            proof {
                assert forall|r2: crate::reach_spec::ReachV| #[trigger] reach_closed(p, argv, r2) implies inside(seen_v(rf@, rm@, rc@), w@, r2) by {
                    lemma_inside_last(r0, w0, r2);
                    let xv = w0.fns.last();
                    assert(reached(fn_succ(p, xv), r2));
                    assert forall|y: Seq<char>| #[trigger] seen_v(rf@, rm@, rc@).fns.contains(y) implies r0.fns.contains(y) || r2.fns.contains(y) by {
                        lemma_push_contains(r0.fns, xv, y);
                    }
                    lemma_inside_visit(r0, w1, seen_v(rf@, rm@, rc@), succ@, r2);
                }
            }
            proof {
                lemma_walk_bounds(p, argv, seen_v(rf@, rm@, rc@), w@);
            }
        } else if w.methods.len() > 0 {
            let x = match w.methods.pop() {
                Some(x) => x,
                None => break,
            };
            assert(pairs_v(w.methods@) =~= w0.methods.drop_last());
            assert(w@ == ItemsV { methods: w0.methods.drop_last(), ..w0 });
            let ghost w1 = w@;
            proof {
                assert forall|r2: crate::reach_spec::ReachV| #[trigger] reach_closed(p, argv, r2) implies inside(r0, w1, r2) by {
                    assert forall|y: (Seq<char>, Seq<char>)| #[trigger] w1.methods.contains(y) implies w0.methods.contains(y) by {
                        lemma_drop_last_contains(w0.methods, y);
                    }
                    lemma_inside_drop(r0, w0, w1, r2);
                }
            }
            if has_pair(&rm, x.0.as_str(), x.1.as_str()) {
                proof {
                    lemma_step_method_seen(p, argv, r0, w0);
                }
                continue;
            }
            let succ = method_succ_of(program, x.0.as_str(), x.1.as_str());
            proof {
                lemma_step_method_new(p, argv, r0, w0, succ@);
            }
            rm.push(x);
            assert(pairs_v(rm@) =~= r0.methods.push(w0.methods.last()));
            w.absorb(succ);
            proof {
                assert forall|r2: crate::reach_spec::ReachV| #[trigger] reach_closed(p, argv, r2) implies inside(seen_v(rf@, rm@, rc@), w@, r2) by {
                    lemma_inside_last(r0, w0, r2);
                    let xv = w0.methods.last();
                    assert(reached(method_succ(p, xv.0, xv.1), r2));
                    assert forall|y: (Seq<char>, Seq<char>)| #[trigger] seen_v(rf@, rm@, rc@).methods.contains(y) implies r0.methods.contains(y) || r2.methods.contains(y) by {
                        lemma_push_contains(r0.methods, xv, y);
                    }
                    lemma_inside_visit(r0, w1, seen_v(rf@, rm@, rc@), succ@, r2);
                }
            }
            proof {
                lemma_walk_bounds(p, argv, seen_v(rf@, rm@, rc@), w@);
            }
        } else if w.classes.len() > 0 {
            let x = match w.classes.pop() {
                Some(x) => x,
                None => break,
            };
            assert(names_v(w.classes@) =~= w0.classes.drop_last());
            assert(w@ == ItemsV { classes: w0.classes.drop_last(), ..w0 });
            let ghost w1 = w@;
            proof {
                assert forall|r2: crate::reach_spec::ReachV| #[trigger] reach_closed(p, argv, r2) implies inside(r0, w1, r2) by {
                    assert forall|y: Seq<char>| #[trigger] w1.classes.contains(y) implies w0.classes.contains(y) by {
                        lemma_drop_last_contains(w0.classes, y);
                    }
                    lemma_inside_drop(r0, w0, w1, r2);
                }
            }
            if has_name(&rc, x.as_str()) {
                proof {
                    lemma_step_class_seen(p, argv, r0, w0);
                }
                continue;
            }
            let succ = class_succ_of(program, x.as_str());
            proof {
                lemma_step_class_new(p, argv, r0, w0, succ@);
            }
            rc.push(x);
            assert(names_v(rc@) =~= r0.classes.push(w0.classes.last()));
            w.absorb(succ);
            proof {
                assert forall|r2: crate::reach_spec::ReachV| #[trigger] reach_closed(p, argv, r2) implies inside(seen_v(rf@, rm@, rc@), w@, r2) by {
                    lemma_inside_last(r0, w0, r2);
                    let xv = w0.classes.last();
                    assert(reached(class_succ(p, xv), r2));
                    assert forall|y: Seq<char>| #[trigger] seen_v(rf@, rm@, rc@).classes.contains(y) implies r0.classes.contains(y) || r2.classes.contains(y) by {
                        lemma_push_contains(r0.classes, xv, y);
                    }
                    lemma_inside_visit(r0, w1, seen_v(rf@, rm@, rc@), succ@, r2);
                }
            }
            proof {
                lemma_walk_bounds(p, argv, seen_v(rf@, rm@, rc@), w@);
            }
        } else {
            break;
        }
    }
    proof {
        lemma_walk_done(p, argv, seen_v(rf@, rm@, rc@), w@);
        let rv = ReachV { fns: names_v(rf@), methods: pairs_v(rm@), classes: names_v(rc@), intrinsics: w@.intrinsics, opt: w@.opt, trycatch: w@.trycatch };
        assert forall|r2: ReachV| #[trigger] reach_closed(p, argv, r2) implies crate::reach_spec::reach_within(rv, r2) by {
            assert(inside(seen_v(rf@, rm@, rc@), w@, r2));
        }
    }
    Reach {
        fns: rf,
        methods: rm,
        instantiated: rc,
        intrinsics: w.intrinsics,
        uses_opt: w.uses_opt,
        uses_trycatch: w.uses_trycatch,
    }
}

} // verus!
