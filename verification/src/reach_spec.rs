//! What code reachability sees in the lowered program: the functions,
//! methods, classes and intrinsics that each body mentions.

use vstd::prelude::*;
use crate::ast::{
    BlockV, ClassDeclV, ExprKindV, ExprV, FieldDeclV, FunctionDeclV, MethodDeclV, ProgramV, StmtKindV, StmtV,
};

verus! {

/// What a piece of code mentions, in the order a walk meets it.
pub struct ItemsV {
    pub fns: Seq<Seq<char>>,
    pub methods: Seq<(Seq<char>, Seq<char>)>,
    pub classes: Seq<Seq<char>>,
    pub intrinsics: Seq<Seq<char>>,
    pub opt: bool,
    pub trycatch: bool,
}

pub open spec fn no_items() -> ItemsV {
    ItemsV {
        fns: Seq::empty(),
        methods: Seq::empty(),
        classes: Seq::empty(),
        intrinsics: Seq::empty(),
        opt: false,
        trycatch: false,
    }
}

pub open spec fn cat(a: ItemsV, b: ItemsV) -> ItemsV {
    ItemsV {
        fns: a.fns + b.fns,
        methods: a.methods + b.methods,
        classes: a.classes + b.classes,
        intrinsics: a.intrinsics + b.intrinsics,
        opt: a.opt || b.opt,
        trycatch: a.trycatch || b.trycatch,
    }
}

pub open spec fn fn_item(n: Seq<char>) -> ItemsV {
    ItemsV { fns: seq![n], ..no_items() }
}

pub open spec fn method_item(c: Seq<char>, m: Seq<char>) -> ItemsV {
    ItemsV { methods: seq![(c, m)], ..no_items() }
}

pub open spec fn class_item(c: Seq<char>) -> ItemsV {
    ItemsV { classes: seq![c], ..no_items() }
}

pub open spec fn intrinsic_item(n: Seq<char>) -> ItemsV {
    ItemsV { intrinsics: seq![n], ..no_items() }
}

pub open spec fn opt_item() -> ItemsV {
    ItemsV { opt: true, ..no_items() }
}

pub open spec fn trycatch_item() -> ItemsV {
    ItemsV { trycatch: true, ..no_items() }
}

/// The method a container literal fills itself with.
pub open spec fn fill_method(is_array: bool) -> Seq<char> {
    if is_array { "set"@ } else { "push"@ }
}

/// What an expression mentions: calls, method calls of resolved classes,
/// instantiated classes (with a container literal's fill method),
/// intrinsics, and whether optional machinery is used.
pub open spec fn items_expr(e: ExprV) -> ItemsV
    decreases e, 1nat,
{
    match e.kind {
        ExprKindV::Call { name, args } => cat(fn_item(name), items_list(args, args.len())),
        ExprKindV::GenericCall { name, args, .. } => cat(fn_item(name), items_list(args, args.len())),
        ExprKindV::MethodCall { recv, args, .. } => cat(items_expr(*recv), items_list(args, args.len())),
        ExprKindV::CoreMethodCall { class, name, recv, args } => cat(
            cat(method_item(class, name), items_expr(*recv)),
            items_list(args, args.len()),
        ),
        ExprKindV::New { class, args } => cat(class_item(class), items_list(args, args.len())),
        ExprKindV::ContainerLit { class, is_array, elems } => cat(
            cat(class_item(class), method_item(class, fill_method(is_array))),
            items_list(elems, elems.len()),
        ),
        ExprKindV::BufAlloc { size, .. } => items_expr(*size),
        ExprKindV::ArrayLit(elems) => items_list(elems, elems.len()),
        ExprKindV::OptWrap { expr, .. } => cat(opt_item(), items_expr(*expr)),
        ExprKindV::OptUnwrap { expr, .. } => cat(opt_item(), items_expr(*expr)),
        ExprKindV::OptHas { expr, .. } => cat(opt_item(), items_expr(*expr)),
        ExprKindV::FieldAccess { recv, .. } => items_expr(*recv),
        ExprKindV::Index { recv, index } => cat(items_expr(*recv), items_expr(*index)),
        ExprKindV::IntrinsicCall { name, args } => cat(intrinsic_item(name), items_list(args, args.len())),
        ExprKindV::Binary { lhs, rhs, .. } => cat(items_expr(*lhs), items_expr(*rhs)),
        ExprKindV::Unary { operand, .. } => items_expr(*operand),
        ExprKindV::OptNone { .. } => opt_item(),
        _ => no_items(),
    }
}

/// What the first `n` expressions of a list mention.
pub open spec fn items_list(s: Seq<ExprV>, n: nat) -> ItemsV
    decreases s, n,
{
    if n == 0 || n > s.len() {
        no_items()
    } else {
        cat(items_list(s, (n - 1) as nat), items_expr(s[n - 1]))
    }
}

/// What a statement mentions; `try` also needs the handler stack.
pub open spec fn items_stmt(st: StmtV) -> ItemsV
    decreases st, 1nat,
{
    match st.kind {
        StmtKindV::VarDecl { init, .. } => items_expr(init),
        StmtKindV::Assign { target, value, .. } => cat(items_expr(target), items_expr(value)),
        StmtKindV::IncDec { target, .. } => items_expr(target),
        StmtKindV::ExprStmt(e) => items_expr(e),
        StmtKindV::Return(Some(e)) => items_expr(e),
        StmtKindV::If { arms, else_block } => cat(
            items_arms(arms, arms.len()),
            match else_block {
                Some(b) => items_stmts(b.stmts, b.stmts.len()),
                None => no_items(),
            },
        ),
        StmtKindV::While { cond, body } => cat(items_expr(cond), items_stmts(body.stmts, body.stmts.len())),
        StmtKindV::ForC { init, cond, step, body, .. } => cat(
            cat(cat(items_expr(init), items_expr(cond)), items_stmt(*step)),
            items_stmts(body.stmts, body.stmts.len()),
        ),
        StmtKindV::ForIn { iterable, body, .. } => cat(items_expr(iterable), items_stmts(body.stmts, body.stmts.len())),
        StmtKindV::Scope(b) => items_stmts(b.stmts, b.stmts.len()),
        StmtKindV::TryCatch { body, catch_body, .. } => cat(
            cat(trycatch_item(), items_stmts(body.stmts, body.stmts.len())),
            items_stmts(catch_body.stmts, catch_body.stmts.len()),
        ),
        _ => no_items(),
    }
}

pub open spec fn items_stmts(s: Seq<StmtV>, n: nat) -> ItemsV
    decreases s, n,
{
    if n == 0 || n > s.len() {
        no_items()
    } else {
        cat(items_stmts(s, (n - 1) as nat), items_stmt(s[n - 1]))
    }
}

pub open spec fn items_arms(a: Seq<(ExprV, BlockV)>, n: nat) -> ItemsV
    decreases a, n,
{
    if n == 0 || n > a.len() {
        no_items()
    } else {
        cat(items_arms(a, (n - 1) as nat), cat(items_expr(a[n - 1].0), items_stmts(a[n - 1].1.stmts, a[n - 1].1.stmts.len())))
    }
}

pub open spec fn items_block(b: BlockV) -> ItemsV {
    items_stmts(b.stmts, b.stmts.len())
}

/// What the first `n` field defaults mention (they run in the constructor).
pub open spec fn items_fields(fs: Seq<FieldDeclV>, n: nat) -> ItemsV
    decreases n,
{
    if n == 0 || n > fs.len() {
        no_items()
    } else {
        cat(items_fields(fs, (n - 1) as nat), items_expr(fs[n - 1].default))
    }
}

/// The function of that name (the last one, when there are several).
pub open spec fn fn_lookup(fs: Seq<FunctionDeclV>, name: Seq<char>) -> Option<FunctionDeclV>
    decreases fs.len(),
{
    if fs.len() == 0 {
        None
    } else if fs.last().name == name {
        Some(fs.last())
    } else {
        fn_lookup(fs.drop_last(), name)
    }
}

/// The class of that name (the last one, when there are several).
pub open spec fn class_lookup(cs: Seq<ClassDeclV>, name: Seq<char>) -> Option<ClassDeclV>
    decreases cs.len(),
{
    if cs.len() == 0 {
        None
    } else if cs.last().name == name {
        Some(cs.last())
    } else {
        class_lookup(cs.drop_last(), name)
    }
}

pub open spec fn method_in(ms: Seq<MethodDeclV>, name: Seq<char>) -> Option<MethodDeclV>
    decreases ms.len(),
{
    if ms.len() == 0 {
        None
    } else if ms.last().name == name {
        Some(ms.last())
    } else {
        method_in(ms.drop_last(), name)
    }
}

/// Method `m` of class `c`: of the last class so named that has one.
pub open spec fn method_lookup(cs: Seq<ClassDeclV>, c: Seq<char>, m: Seq<char>) -> Option<MethodDeclV>
    decreases cs.len(),
{
    if cs.len() == 0 {
        None
    } else if cs.last().name == c && method_in(cs.last().methods, m) is Some {
        method_in(cs.last().methods, m)
    } else {
        method_lookup(cs.drop_last(), c, m)
    }
}

/// What running function `name` mentions (nothing, if there is none).
pub open spec fn fn_succ(p: ProgramV, name: Seq<char>) -> ItemsV {
    match fn_lookup(p.functions, name) {
        Some(f) => items_block(f.body),
        None => no_items(),
    }
}

pub open spec fn method_succ(p: ProgramV, c: Seq<char>, m: Seq<char>) -> ItemsV {
    match method_lookup(p.classes, c, m) {
        Some(md) => items_block(md.body),
        None => no_items(),
    }
}

/// What constructing class `c` runs: its field defaults, then its constructor.
pub open spec fn class_succ(p: ProgramV, c: Seq<char>) -> ItemsV {
    match class_lookup(p.classes, c) {
        Some(cd) => cat(
            items_fields(cd.fields, cd.fields.len()),
            match cd.ctor {
                Some(ct) => items_block(ct.body),
                None => no_items(),
            },
        ),
        None => no_items(),
    }
}

/// What every function body of a list mentions.
pub open spec fn fns_all(fs: Seq<FunctionDeclV>) -> ItemsV
    decreases fs.len(),
{
    if fs.len() == 0 {
        no_items()
    } else {
        cat(fns_all(fs.drop_last()), items_block(fs.last().body))
    }
}

pub open spec fn class_methods_all(ms: Seq<MethodDeclV>) -> ItemsV
    decreases ms.len(),
{
    if ms.len() == 0 {
        no_items()
    } else {
        cat(class_methods_all(ms.drop_last()), items_block(ms.last().body))
    }
}

/// What every method body of a list of classes mentions.
pub open spec fn methods_all(cs: Seq<ClassDeclV>) -> ItemsV
    decreases cs.len(),
{
    if cs.len() == 0 {
        no_items()
    } else {
        cat(methods_all(cs.drop_last()), class_methods_all(cs.last().methods))
    }
}

/// What constructing each class of a list runs.
pub open spec fn ctor_items(c: ClassDeclV) -> ItemsV {
    cat(
        items_fields(c.fields, c.fields.len()),
        match c.ctor {
            Some(ct) => items_block(ct.body),
            None => no_items(),
        },
    )
}

pub open spec fn classes_all(cs: Seq<ClassDeclV>) -> ItemsV
    decreases cs.len(),
{
    if cs.len() == 0 {
        no_items()
    } else {
        cat(classes_all(cs.drop_last()), ctor_items(cs.last()))
    }
}

/// The entry points: `main`, and what the `argv` form of `main` builds.
pub open spec fn roots() -> ItemsV {
    ItemsV {
        fns: seq!["main"@],
        methods: seq![("Array<String>"@, "set"@)],
        classes: seq!["Array<String>"@],
        ..no_items()
    }
}

/// Every name a walk of the program can meet.
pub open spec fn universe(p: ProgramV) -> ItemsV {
    cat(cat(cat(roots(), fns_all(p.functions)), methods_all(p.classes)), classes_all(p.classes))
}

/// Every function, method and class named in `a` is named in `b`.
pub open spec fn names_within(a: ItemsV, b: ItemsV) -> bool {
    &&& forall|x: Seq<char>| a.fns.contains(x) ==> #[trigger] b.fns.contains(x)
    &&& forall|x: (Seq<char>, Seq<char>)| a.methods.contains(x) ==> #[trigger] b.methods.contains(x)
    &&& forall|x: Seq<char>| a.classes.contains(x) ==> #[trigger] b.classes.contains(x)
}

pub proof fn lemma_contains_add<A>(a: Seq<A>, b: Seq<A>, y: A)
    ensures
        a.contains(y) ==> (a + b).contains(y),
        b.contains(y) ==> (a + b).contains(y),
{
    if a.contains(y) {
        let i = choose|i: int| 0 <= i < a.len() && a[i] == y;
        assert((a + b)[i] == y);
    }
    if b.contains(y) {
        let i = choose|i: int| 0 <= i < b.len() && b[i] == y;
        assert((a + b)[a.len() + i] == y);
    }
}

pub proof fn lemma_sub_cat(a: ItemsV, b: ItemsV)
    ensures
        names_within(a, cat(a, b)),
        names_within(b, cat(a, b)),
{
    assert forall|x: Seq<char>| a.fns.contains(x) || b.fns.contains(x) implies #[trigger] cat(a, b).fns.contains(x) by {
        lemma_contains_add(a.fns, b.fns, x);
    }
    assert forall|x: (Seq<char>, Seq<char>)| a.methods.contains(x) || b.methods.contains(x) implies #[trigger] cat(a, b).methods.contains(x) by {
        lemma_contains_add(a.methods, b.methods, x);
    }
    assert forall|x: Seq<char>| a.classes.contains(x) || b.classes.contains(x) implies #[trigger] cat(a, b).classes.contains(x) by {
        lemma_contains_add(a.classes, b.classes, x);
    }
}

pub proof fn lemma_sub_trans(a: ItemsV, b: ItemsV, c: ItemsV)
    requires
        names_within(a, b),
        names_within(b, c),
    ensures
        names_within(a, c),
{
}

proof fn lemma_fn_in_all(fs: Seq<FunctionDeclV>, x: Seq<char>)
    ensures
        fn_lookup(fs, x) matches Some(f) ==> names_within(items_block(f.body), fns_all(fs)),
    decreases fs.len(),
{
    if fs.len() > 0 {
        lemma_sub_cat(fns_all(fs.drop_last()), items_block(fs.last().body));
        if fs.last().name != x {
            lemma_fn_in_all(fs.drop_last(), x);
        }
    }
}

proof fn lemma_method_in_class(ms: Seq<MethodDeclV>, m: Seq<char>)
    ensures
        method_in(ms, m) matches Some(md) ==> names_within(items_block(md.body), class_methods_all(ms)),
    decreases ms.len(),
{
    if ms.len() > 0 {
        lemma_sub_cat(class_methods_all(ms.drop_last()), items_block(ms.last().body));
        if ms.last().name != m {
            lemma_method_in_class(ms.drop_last(), m);
        }
    }
}

proof fn lemma_method_in_all(cs: Seq<ClassDeclV>, c: Seq<char>, m: Seq<char>)
    ensures
        method_lookup(cs, c, m) matches Some(md) ==> names_within(items_block(md.body), methods_all(cs)),
    decreases cs.len(),
{
    if cs.len() > 0 {
        lemma_sub_cat(methods_all(cs.drop_last()), class_methods_all(cs.last().methods));
        lemma_method_in_class(cs.last().methods, m);
        lemma_method_in_all(cs.drop_last(), c, m);
    }
}

proof fn lemma_class_in_all(cs: Seq<ClassDeclV>, c: Seq<char>)
    ensures
        class_lookup(cs, c) matches Some(cd) ==> names_within(ctor_items(cd), classes_all(cs)),
    decreases cs.len(),
{
    if cs.len() > 0 {
        lemma_sub_cat(classes_all(cs.drop_last()), ctor_items(cs.last()));
        if cs.last().name != c {
            lemma_class_in_all(cs.drop_last(), c);
        }
    }
}

/// Whatever a function, method or constructor mentions is in the universe.
pub proof fn lemma_succ_in_universe(p: ProgramV, x: Seq<char>, y: Seq<char>)
    ensures
        names_within(fn_succ(p, x), universe(p)),
        names_within(method_succ(p, x, y), universe(p)),
        names_within(class_succ(p, x), universe(p)),
        names_within(roots(), universe(p)),
{
    let r = roots();
    let f = fns_all(p.functions);
    let m = methods_all(p.classes);
    let c = classes_all(p.classes);
    lemma_sub_cat(r, f);
    lemma_sub_cat(cat(r, f), m);
    lemma_sub_cat(cat(cat(r, f), m), c);
    lemma_fn_in_all(p.functions, x);
    lemma_method_in_all(p.classes, x, y);
    lemma_class_in_all(p.classes, x);
    assert(names_within(no_items(), universe(p)));
    match fn_lookup(p.functions, x) {
        Some(fd) => {
            lemma_sub_trans(items_block(fd.body), f, cat(r, f));
            lemma_sub_trans(items_block(fd.body), cat(r, f), cat(cat(r, f), m));
            lemma_sub_trans(items_block(fd.body), cat(cat(r, f), m), universe(p));
        },
        None => {},
    }
    match method_lookup(p.classes, x, y) {
        Some(md) => {
            lemma_sub_trans(items_block(md.body), m, cat(cat(r, f), m));
            lemma_sub_trans(items_block(md.body), cat(cat(r, f), m), universe(p));
        },
        None => {},
    }
    match class_lookup(p.classes, x) {
        Some(cd) => {
            assert(class_succ(p, x) == ctor_items(cd));
            lemma_sub_trans(ctor_items(cd), c, universe(p));
        },
        None => {},
    }
    lemma_sub_trans(r, cat(r, f), cat(cat(r, f), m));
    lemma_sub_trans(r, cat(cat(r, f), m), universe(p));
}

/// A list without repeats, all of whose entries are in `u`, is no longer than `u`.
pub proof fn lemma_nodup_within<A>(s: Seq<A>, u: Seq<A>)
    requires
        s.no_duplicates(),
        forall|x: A| s.contains(x) ==> #[trigger] u.contains(x),
    ensures
        s.len() <= u.len(),
{
    s.unique_seq_to_set();
    u.lemma_cardinality_of_set();
    assert(s.to_set().subset_of(u.to_set()));
    vstd::set_lib::lemma_len_subset(s.to_set(), u.to_set());
}

/// The functions, methods and classes visited so far.
pub struct SeenV {
    pub fns: Seq<Seq<char>>,
    pub methods: Seq<(Seq<char>, Seq<char>)>,
    pub classes: Seq<Seq<char>>,
}

/// Everything `s` mentions is visited or waiting in `w` (intrinsics and
/// flags are collected in `w` directly).
pub open spec fn covered(s: ItemsV, r: SeenV, w: ItemsV) -> bool {
    &&& forall|x: Seq<char>| #[trigger] s.fns.contains(x) ==> r.fns.contains(x) || w.fns.contains(x)
    &&& forall|x: (Seq<char>, Seq<char>)| #[trigger] s.methods.contains(x) ==> r.methods.contains(x) || w.methods.contains(x)
    &&& forall|x: Seq<char>| #[trigger] s.classes.contains(x) ==> r.classes.contains(x) || w.classes.contains(x)
    &&& forall|x: Seq<char>| #[trigger] s.intrinsics.contains(x) ==> w.intrinsics.contains(x)
    &&& (s.opt ==> w.opt)
    &&& (s.trycatch ==> w.trycatch)
}

/// Nothing visited or waiting in (`r`, `w`) is lost in (`r2`, `w2`).
pub open spec fn grows(r: SeenV, w: ItemsV, r2: SeenV, w2: ItemsV) -> bool {
    &&& forall|x: Seq<char>| #[trigger] r.fns.contains(x) ==> r2.fns.contains(x)
    &&& forall|x: (Seq<char>, Seq<char>)| #[trigger] r.methods.contains(x) ==> r2.methods.contains(x)
    &&& forall|x: Seq<char>| #[trigger] r.classes.contains(x) ==> r2.classes.contains(x)
    &&& forall|x: Seq<char>| #[trigger] w.fns.contains(x) ==> r2.fns.contains(x) || w2.fns.contains(x)
    &&& forall|x: (Seq<char>, Seq<char>)| #[trigger] w.methods.contains(x) ==> r2.methods.contains(x) || w2.methods.contains(x)
    &&& forall|x: Seq<char>| #[trigger] w.classes.contains(x) ==> r2.classes.contains(x) || w2.classes.contains(x)
    &&& forall|x: Seq<char>| #[trigger] w.intrinsics.contains(x) ==> w2.intrinsics.contains(x)
    &&& (w.opt ==> w2.opt)
    &&& (w.trycatch ==> w2.trycatch)
}

pub proof fn lemma_covered_grows(s: ItemsV, r: SeenV, w: ItemsV, r2: SeenV, w2: ItemsV)
    requires
        covered(s, r, w),
        grows(r, w, r2, w2),
    ensures
        covered(s, r2, w2),
{
}

/// What the walk starts from: `main`, and for the `argv` form of `main`
/// the `Array<String>` it builds.
pub open spec fn start_items(argv: bool) -> ItemsV {
    ItemsV {
        fns: seq!["main"@],
        methods: if argv { seq![("Array<String>"@, "set"@)] } else { Seq::empty() },
        classes: if argv { seq!["Array<String>"@] } else { Seq::empty() },
        ..no_items()
    }
}

/// The result of reachability.
pub struct ReachV {
    pub fns: Seq<Seq<char>>,
    pub methods: Seq<(Seq<char>, Seq<char>)>,
    pub classes: Seq<Seq<char>>,
    pub intrinsics: Seq<Seq<char>>,
    pub opt: bool,
    pub trycatch: bool,
}

/// Everything `s` mentions is in the result.
pub open spec fn reached(s: ItemsV, r: ReachV) -> bool {
    &&& forall|x: Seq<char>| #[trigger] s.fns.contains(x) ==> r.fns.contains(x)
    &&& forall|x: (Seq<char>, Seq<char>)| #[trigger] s.methods.contains(x) ==> r.methods.contains(x)
    &&& forall|x: Seq<char>| #[trigger] s.classes.contains(x) ==> r.classes.contains(x)
    &&& forall|x: Seq<char>| #[trigger] s.intrinsics.contains(x) ==> r.intrinsics.contains(x)
    &&& (s.opt ==> r.opt)
    &&& (s.trycatch ==> r.trycatch)
}

/// Every part of `r` is in `r2`.
pub open spec fn reach_within(r: ReachV, r2: ReachV) -> bool {
    &&& forall|x: Seq<char>| #[trigger] r.fns.contains(x) ==> r2.fns.contains(x)
    &&& forall|x: (Seq<char>, Seq<char>)| #[trigger] r.methods.contains(x) ==> r2.methods.contains(x)
    &&& forall|x: Seq<char>| #[trigger] r.classes.contains(x) ==> r2.classes.contains(x)
    &&& forall|x: Seq<char>| #[trigger] r.intrinsics.contains(x) ==> r2.intrinsics.contains(x)
    &&& (r.opt ==> r2.opt)
    &&& (r.trycatch ==> r2.trycatch)
}

/// The result holds the entry points and is closed: whatever a reached
/// function, method or constructor mentions is reached too.
pub open spec fn reach_closed(p: ProgramV, argv: bool, r: ReachV) -> bool {
    &&& reached(start_items(argv), r)
    &&& forall|x: Seq<char>| #[trigger] r.fns.contains(x) ==> reached(fn_succ(p, x), r)
    &&& forall|x: (Seq<char>, Seq<char>)| #[trigger] r.methods.contains(x) ==> reached(method_succ(p, x.0, x.1), r)
    &&& forall|x: Seq<char>| #[trigger] r.classes.contains(x) ==> reached(class_succ(p, x), r)
}

/// What `main` reaches is determined by the program: two closed results
/// that each lie within every closed set hold the same items.
pub proof fn lemma_least_reach_unique(p: ProgramV, argv: bool, a: ReachV, b: ReachV)
    requires
        reach_closed(p, argv, a),
        reach_closed(p, argv, b),
        forall|r2: ReachV| #[trigger] reach_closed(p, argv, r2) ==> reach_within(a, r2),
        forall|r2: ReachV| #[trigger] reach_closed(p, argv, r2) ==> reach_within(b, r2),
    ensures
        reach_within(a, b),
        reach_within(b, a),
{
}

/// Everything `a` mentions, `b` mentions too.
pub open spec fn mentions_within(a: ItemsV, b: ItemsV) -> bool {
    &&& forall|x: Seq<char>| #[trigger] a.fns.contains(x) ==> b.fns.contains(x)
    &&& forall|x: (Seq<char>, Seq<char>)| #[trigger] a.methods.contains(x) ==> b.methods.contains(x)
    &&& forall|x: Seq<char>| #[trigger] a.classes.contains(x) ==> b.classes.contains(x)
    &&& forall|x: Seq<char>| #[trigger] a.intrinsics.contains(x) ==> b.intrinsics.contains(x)
    &&& (a.opt ==> b.opt)
    &&& (a.trycatch ==> b.trycatch)
}

/// `c` is an operand of `e`: an argument, an element, a receiver, an index,
/// either side of a binary operator, the operand of a unary one, or the
/// value an optional operation or a buffer allocation works on.
pub open spec fn operand_of(c: ExprV, e: ExprV) -> bool {
    match e.kind {
        ExprKindV::Call { args, .. } => args.contains(c),
        ExprKindV::GenericCall { args, .. } => args.contains(c),
        ExprKindV::MethodCall { recv, args, .. } => c == *recv || args.contains(c),
        ExprKindV::CoreMethodCall { recv, args, .. } => c == *recv || args.contains(c),
        ExprKindV::New { args, .. } => args.contains(c),
        ExprKindV::ContainerLit { elems, .. } => elems.contains(c),
        ExprKindV::BufAlloc { size, .. } => c == *size,
        ExprKindV::ArrayLit(elems) => elems.contains(c),
        ExprKindV::OptWrap { expr, .. } => c == *expr,
        ExprKindV::OptUnwrap { expr, .. } => c == *expr,
        ExprKindV::OptHas { expr, .. } => c == *expr,
        ExprKindV::FieldAccess { recv, .. } => c == *recv,
        ExprKindV::Index { recv, index } => c == *recv || c == *index,
        ExprKindV::IntrinsicCall { args, .. } => args.contains(c),
        ExprKindV::Binary { lhs, rhs, .. } => c == *lhs || c == *rhs,
        ExprKindV::Unary { operand, .. } => c == *operand,
        _ => false,
    }
}

proof fn lemma_within_cat(a: ItemsV, b: ItemsV)
    ensures
        mentions_within(a, cat(a, b)),
        mentions_within(b, cat(a, b)),
{
    assert forall|x: Seq<char>| #[trigger] a.fns.contains(x) implies cat(a, b).fns.contains(x) by {
        let i = choose|i: int| 0 <= i < a.fns.len() && a.fns[i] == x;
        assert(cat(a, b).fns[i] == x);
    }
    assert forall|x: Seq<char>| #[trigger] b.fns.contains(x) implies cat(a, b).fns.contains(x) by {
        let i = choose|i: int| 0 <= i < b.fns.len() && b.fns[i] == x;
        assert(cat(a, b).fns[a.fns.len() + i] == x);
    }
    assert forall|x: (Seq<char>, Seq<char>)| #[trigger] a.methods.contains(x) implies cat(a, b).methods.contains(x) by {
        let i = choose|i: int| 0 <= i < a.methods.len() && a.methods[i] == x;
        assert(cat(a, b).methods[i] == x);
    }
    assert forall|x: (Seq<char>, Seq<char>)| #[trigger] b.methods.contains(x) implies cat(a, b).methods.contains(x) by {
        let i = choose|i: int| 0 <= i < b.methods.len() && b.methods[i] == x;
        assert(cat(a, b).methods[a.methods.len() + i] == x);
    }
    assert forall|x: Seq<char>| #[trigger] a.classes.contains(x) implies cat(a, b).classes.contains(x) by {
        let i = choose|i: int| 0 <= i < a.classes.len() && a.classes[i] == x;
        assert(cat(a, b).classes[i] == x);
    }
    assert forall|x: Seq<char>| #[trigger] b.classes.contains(x) implies cat(a, b).classes.contains(x) by {
        let i = choose|i: int| 0 <= i < b.classes.len() && b.classes[i] == x;
        assert(cat(a, b).classes[a.classes.len() + i] == x);
    }
    assert forall|x: Seq<char>| #[trigger] a.intrinsics.contains(x) implies cat(a, b).intrinsics.contains(x) by {
        let i = choose|i: int| 0 <= i < a.intrinsics.len() && a.intrinsics[i] == x;
        assert(cat(a, b).intrinsics[i] == x);
    }
    assert forall|x: Seq<char>| #[trigger] b.intrinsics.contains(x) implies cat(a, b).intrinsics.contains(x) by {
        let i = choose|i: int| 0 <= i < b.intrinsics.len() && b.intrinsics[i] == x;
        assert(cat(a, b).intrinsics[a.intrinsics.len() + i] == x);
    }
}

proof fn lemma_within_trans(a: ItemsV, b: ItemsV, c: ItemsV)
    requires
        mentions_within(a, b),
        mentions_within(b, c),
    ensures
        mentions_within(a, c),
{
}

proof fn lemma_list_covers(es: Seq<ExprV>, n: nat, i: int)
    requires
        n <= es.len(),
        0 <= i < n,
    ensures
        mentions_within(items_expr(es[i]), items_list(es, n)),
    decreases n,
{
    let m = (n - 1) as nat;
    lemma_within_cat(items_list(es, m), items_expr(es[m as int]));
    if i < m {
        lemma_list_covers(es, m, i);
        lemma_within_trans(items_expr(es[i]), items_list(es, m), items_list(es, n));
    }
}

proof fn lemma_list_contains(es: Seq<ExprV>, c: ExprV)
    requires
        es.contains(c),
    ensures
        mentions_within(items_expr(c), items_list(es, es.len())),
{
    let i = choose|i: int| 0 <= i < es.len() && es[i] == c;
    lemma_list_covers(es, es.len(), i);
}

/// Walking an expression reaches everything its operands reach, and a
/// call reaches the function it names: so every function called anywhere
/// inside a reached body, on either side of `and`/`or` or deep in an
/// argument, is reached.
pub proof fn lemma_walk_covers_operands(c: ExprV, e: ExprV)
    ensures
        operand_of(c, e) ==> mentions_within(items_expr(c), items_expr(e)),
        e.kind matches ExprKindV::Call { name, .. } ==> items_expr(e).fns.contains(name),
        e.kind matches ExprKindV::GenericCall { name, .. } ==> items_expr(e).fns.contains(name),
{
    match e.kind {
        ExprKindV::Call { name, args } => {
            lemma_within_cat(fn_item(name), items_list(args, args.len()));
            assert(fn_item(name).fns[0] == name);
            assert(fn_item(name).fns.contains(name));
            if args.contains(c) {
                lemma_list_contains(args, c);
                lemma_within_trans(items_expr(c), items_list(args, args.len()), items_expr(e));
            }
        },
        ExprKindV::GenericCall { name, args, .. } => {
            lemma_within_cat(fn_item(name), items_list(args, args.len()));
            assert(fn_item(name).fns[0] == name);
            assert(fn_item(name).fns.contains(name));
            if args.contains(c) {
                lemma_list_contains(args, c);
                lemma_within_trans(items_expr(c), items_list(args, args.len()), items_expr(e));
            }
        },
        ExprKindV::MethodCall { recv, args, .. } => {
            lemma_within_cat(items_expr(*recv), items_list(args, args.len()));
            if args.contains(c) {
                lemma_list_contains(args, c);
                lemma_within_trans(items_expr(c), items_list(args, args.len()), items_expr(e));
            }
        },
        ExprKindV::CoreMethodCall { class, name, recv, args } => {
            let h = cat(method_item(class, name), items_expr(*recv));
            lemma_within_cat(method_item(class, name), items_expr(*recv));
            lemma_within_cat(h, items_list(args, args.len()));
            lemma_within_trans(items_expr(*recv), h, items_expr(e));
            if args.contains(c) {
                lemma_list_contains(args, c);
                lemma_within_trans(items_expr(c), items_list(args, args.len()), items_expr(e));
            }
        },
        ExprKindV::New { class, args } => {
            lemma_within_cat(class_item(class), items_list(args, args.len()));
            if args.contains(c) {
                lemma_list_contains(args, c);
                lemma_within_trans(items_expr(c), items_list(args, args.len()), items_expr(e));
            }
        },
        ExprKindV::ContainerLit { class, is_array, elems } => {
            let h = cat(class_item(class), method_item(class, fill_method(is_array)));
            lemma_within_cat(h, items_list(elems, elems.len()));
            if elems.contains(c) {
                lemma_list_contains(elems, c);
                lemma_within_trans(items_expr(c), items_list(elems, elems.len()), items_expr(e));
            }
        },
        ExprKindV::ArrayLit(elems) => {
            if elems.contains(c) {
                lemma_list_contains(elems, c);
            }
        },
        ExprKindV::OptWrap { expr, .. } => {
            lemma_within_cat(opt_item(), items_expr(*expr));
        },
        ExprKindV::OptUnwrap { expr, .. } => {
            lemma_within_cat(opt_item(), items_expr(*expr));
        },
        ExprKindV::OptHas { expr, .. } => {
            lemma_within_cat(opt_item(), items_expr(*expr));
        },
        ExprKindV::Index { recv, index } => {
            lemma_within_cat(items_expr(*recv), items_expr(*index));
        },
        ExprKindV::IntrinsicCall { name, args } => {
            lemma_within_cat(intrinsic_item(name), items_list(args, args.len()));
            if args.contains(c) {
                lemma_list_contains(args, c);
                lemma_within_trans(items_expr(c), items_list(args, args.len()), items_expr(e));
            }
        },
        ExprKindV::Binary { lhs, rhs, .. } => {
            lemma_within_cat(items_expr(*lhs), items_expr(*rhs));
        },
        _ => {},
    }
}

/// `c` is an expression written in `s` itself (not in a nested block): an
/// initializer, a target or value, a condition, an iterable, a returned
/// value, or an `if` arm's condition.
pub open spec fn expr_of_stmt(c: ExprV, s: StmtV) -> bool {
    match s.kind {
        StmtKindV::VarDecl { init, .. } => c == init,
        StmtKindV::Assign { target, value, .. } => c == target || c == value,
        StmtKindV::IncDec { target, .. } => c == target,
        StmtKindV::ExprStmt(e) => c == e,
        StmtKindV::Return(Some(e)) => c == e,
        StmtKindV::If { arms, .. } => exists|i: int| 0 <= i < arms.len() && #[trigger] arms[i].0 == c,
        StmtKindV::While { cond, .. } => c == cond,
        StmtKindV::ForC { init, cond, .. } => c == init || c == cond,
        StmtKindV::ForIn { iterable, .. } => c == iterable,
        _ => false,
    }
}

/// `c` is a statement of a block nested in `s` (an arm, `else`, a loop
/// body, a `for` step, a scope, a `try` or `catch` body).
pub open spec fn stmt_of_stmt(c: StmtV, s: StmtV) -> bool {
    match s.kind {
        StmtKindV::If { arms, else_block } => (exists|i: int| 0 <= i < arms.len() && #[trigger] arms[i].1.stmts.contains(c))
            || (else_block matches Some(b) && b.stmts.contains(c)),
        StmtKindV::While { body, .. } => body.stmts.contains(c),
        StmtKindV::ForC { step, body, .. } => c == *step || body.stmts.contains(c),
        StmtKindV::ForIn { body, .. } => body.stmts.contains(c),
        StmtKindV::Scope(b) => b.stmts.contains(c),
        StmtKindV::TryCatch { body, catch_body, .. } => body.stmts.contains(c) || catch_body.stmts.contains(c),
        _ => false,
    }
}

proof fn lemma_stmts_covers(ss: Seq<StmtV>, n: nat, i: int)
    requires
        n <= ss.len(),
        0 <= i < n,
    ensures
        mentions_within(items_stmt(ss[i]), items_stmts(ss, n)),
    decreases n,
{
    let m = (n - 1) as nat;
    lemma_within_cat(items_stmts(ss, m), items_stmt(ss[m as int]));
    if i < m {
        lemma_stmts_covers(ss, m, i);
        lemma_within_trans(items_stmt(ss[i]), items_stmts(ss, m), items_stmts(ss, n));
    }
}

/// A block's walk covers each of its statements.
pub proof fn lemma_block_covers(ss: Seq<StmtV>, c: StmtV)
    requires
        ss.contains(c),
    ensures
        mentions_within(items_stmt(c), items_stmts(ss, ss.len())),
{
    let i = choose|i: int| 0 <= i < ss.len() && ss[i] == c;
    lemma_stmts_covers(ss, ss.len(), i);
}

proof fn lemma_arms_covers(a: Seq<(ExprV, BlockV)>, n: nat, i: int)
    requires
        n <= a.len(),
        0 <= i < n,
    ensures
        mentions_within(items_expr(a[i].0), items_arms(a, n)),
        mentions_within(items_stmts(a[i].1.stmts, a[i].1.stmts.len()), items_arms(a, n)),
    decreases n,
{
    let m = (n - 1) as nat;
    let last = cat(items_expr(a[m as int].0), items_stmts(a[m as int].1.stmts, a[m as int].1.stmts.len()));
    lemma_within_cat(items_arms(a, m), last);
    if i < m {
        lemma_arms_covers(a, m, i);
        lemma_within_trans(items_expr(a[i].0), items_arms(a, m), items_arms(a, n));
        lemma_within_trans(items_stmts(a[i].1.stmts, a[i].1.stmts.len()), items_arms(a, m), items_arms(a, n));
    } else {
        lemma_within_cat(items_expr(a[m as int].0), items_stmts(a[m as int].1.stmts, a[m as int].1.stmts.len()));
        lemma_within_trans(items_expr(a[i].0), last, items_arms(a, n));
        lemma_within_trans(items_stmts(a[i].1.stmts, a[i].1.stmts.len()), last, items_arms(a, n));
    }
}

/// Walking a statement reaches everything its own expressions reach and
/// everything the statements of its nested blocks reach (conditions,
/// bodies, `else`, `for` steps, `try` and `catch` alike).
pub proof fn lemma_walk_covers_statement(s: StmtV, c: ExprV, d: StmtV)
    ensures
        expr_of_stmt(c, s) ==> mentions_within(items_expr(c), items_stmt(s)),
        stmt_of_stmt(d, s) ==> mentions_within(items_stmt(d), items_stmt(s)),
{
    match s.kind {
        StmtKindV::Assign { target, value, .. } => {
            lemma_within_cat(items_expr(target), items_expr(value));
        },
        StmtKindV::If { arms, else_block } => {
            let ia = items_arms(arms, arms.len());
            let ie = match else_block {
                Some(b) => items_stmts(b.stmts, b.stmts.len()),
                None => no_items(),
            };
            lemma_within_cat(ia, ie);
            if expr_of_stmt(c, s) {
                let i = choose|i: int| 0 <= i < arms.len() && #[trigger] arms[i].0 == c;
                lemma_arms_covers(arms, arms.len(), i);
                lemma_within_trans(items_expr(c), ia, items_stmt(s));
            }
            if stmt_of_stmt(d, s) {
                if exists|i: int| 0 <= i < arms.len() && #[trigger] arms[i].1.stmts.contains(d) {
                    let i = choose|i: int| 0 <= i < arms.len() && #[trigger] arms[i].1.stmts.contains(d);
                    lemma_arms_covers(arms, arms.len(), i);
                    lemma_block_covers(arms[i].1.stmts, d);
                    lemma_within_trans(items_stmt(d), items_stmts(arms[i].1.stmts, arms[i].1.stmts.len()), ia);
                    lemma_within_trans(items_stmt(d), ia, items_stmt(s));
                } else {
                    let b = else_block->0;
                    lemma_block_covers(b.stmts, d);
                    lemma_within_trans(items_stmt(d), ie, items_stmt(s));
                }
            }
        },
        StmtKindV::While { cond, body } => {
            lemma_within_cat(items_expr(cond), items_stmts(body.stmts, body.stmts.len()));
            if stmt_of_stmt(d, s) {
                lemma_block_covers(body.stmts, d);
                lemma_within_trans(items_stmt(d), items_stmts(body.stmts, body.stmts.len()), items_stmt(s));
            }
        },
        StmtKindV::ForC { init, cond, step, body, .. } => {
            let a = cat(items_expr(init), items_expr(cond));
            let h = cat(a, items_stmt(*step));
            lemma_within_cat(items_expr(init), items_expr(cond));
            lemma_within_cat(a, items_stmt(*step));
            lemma_within_cat(h, items_stmts(body.stmts, body.stmts.len()));
            lemma_within_trans(a, h, items_stmt(s));
            lemma_within_trans(items_expr(init), a, items_stmt(s));
            lemma_within_trans(items_expr(cond), a, items_stmt(s));
            lemma_within_trans(items_stmt(*step), h, items_stmt(s));
            if stmt_of_stmt(d, s) && d != *step {
                lemma_block_covers(body.stmts, d);
                lemma_within_trans(items_stmt(d), items_stmts(body.stmts, body.stmts.len()), items_stmt(s));
            }
        },
        StmtKindV::ForIn { iterable, body, .. } => {
            lemma_within_cat(items_expr(iterable), items_stmts(body.stmts, body.stmts.len()));
            if stmt_of_stmt(d, s) {
                lemma_block_covers(body.stmts, d);
                lemma_within_trans(items_stmt(d), items_stmts(body.stmts, body.stmts.len()), items_stmt(s));
            }
        },
        StmtKindV::Scope(b) => {
            if stmt_of_stmt(d, s) {
                lemma_block_covers(b.stmts, d);
            }
        },
        StmtKindV::TryCatch { body, catch_body, .. } => {
            let h = cat(trycatch_item(), items_stmts(body.stmts, body.stmts.len()));
            lemma_within_cat(trycatch_item(), items_stmts(body.stmts, body.stmts.len()));
            lemma_within_cat(h, items_stmts(catch_body.stmts, catch_body.stmts.len()));
            if stmt_of_stmt(d, s) {
                if body.stmts.contains(d) {
                    lemma_block_covers(body.stmts, d);
                    lemma_within_trans(items_stmt(d), items_stmts(body.stmts, body.stmts.len()), h);
                    lemma_within_trans(items_stmt(d), h, items_stmt(s));
                } else {
                    lemma_block_covers(catch_body.stmts, d);
                    lemma_within_trans(items_stmt(d), items_stmts(catch_body.stmts, catch_body.stmts.len()), items_stmt(s));
                }
            }
        },
        _ => {},
    }
}

} // verus!
