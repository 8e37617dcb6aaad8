use crate::ast::expression::{AssignExpression, Expression};
use crate::ast::function::{Function, FunctionParameter};
use crate::ast::statement::{LetStatement, ReturnStatement, Statement};
use crate::lowering::rules::{
    binary_inst, bind_params, function_insts, initial_frame, lower_args, lower_assign,
    lower_block, lower_body, lower_expr, lower_let, lower_return, lower_stmt, lower_value,
    Binding, Frame, NamendPlace, Scene,
};
use crate::mir::function::MirFunctionId;
use crate::mir::instruction::InstModel;
use crate::mir::module::first_named;
use crate::mir::value::{Constant, MirValue};
use vstd::prelude::*;

verus! {

/// Whether a value can be used behind `made` instructions of a function with
/// `params` parameters: a constant always, the value of an instruction if the
/// instruction is among those made, a parameter if the function has it.
pub open spec fn value_ok(v: MirValue, made: int, params: int) -> bool {
    match v {
        MirValue::Constant(_) => true,
        MirValue::Inst(id) => id.0 < made,
        MirValue::Param(i) => i < params,
    }
}

/// Whether the `k`-th of some instructions is in order: its operands are
/// values that can be used behind the instructions before it, a store goes to
/// a slot that an earlier `Alloca` reserved, a load reads such a slot with the
/// type it was reserved for, and a call names a function of the module.
pub open spec fn inst_ok(insts: Seq<InstModel>, k: int, params: int, callees: int) -> bool {
    match insts[k] {
        InstModel::Alloca(_) => true,
        InstModel::Store(target, v) => {
            &&& target.0 < k
            &&& insts[target.0 as int] is Alloca
            &&& value_ok(v, k, params)
        },
        InstModel::Load(by, from) => from.0 < k && insts[from.0 as int] == InstModel::Alloca(by),
        InstModel::Add(a, b) => value_ok(a, k, params) && value_ok(b, k, params),
        InstModel::Sub(a, b) => value_ok(a, k, params) && value_ok(b, k, params),
        InstModel::Mul(a, b) => value_ok(a, k, params) && value_ok(b, k, params),
        InstModel::Div(a, b) => value_ok(a, k, params) && value_ok(b, k, params),
        InstModel::Return(v, _) => value_ok(v, k, params),
        InstModel::Call(callee, args) => {
            &&& callee.0 < callees
            &&& forall|i: int| 0 <= i < args.len() ==> value_ok(#[trigger] args[i], k, params)
        },
    }
}

/// Whether every one of some instructions is in order.
pub open spec fn insts_ok(insts: Seq<InstModel>, params: int, callees: int) -> bool {
    forall|k: int| 0 <= k < insts.len() ==> #[trigger] inst_ok(insts, k, params, callees)
}

/// Whether a name is bound to a place that is there: the slot of an `Alloca`
/// of the name's type among the instructions, or a parameter of the function.
pub open spec fn binding_ok(b: Binding, insts: Seq<InstModel>, params: int) -> bool {
    match b.place {
        NamendPlace::Local(slot) => slot.0 < insts.len() && insts[slot.0 as int]
            == InstModel::Alloca(b.type_),
        NamendPlace::Param(i) => i < params,
    }
}

/// Whether a frame is in order: its instructions are, their number fits the
/// machine, and every name is bound to a place that is there.
pub open spec fn frame_ok(fr: Frame, params: int, callees: int) -> bool {
    &&& fr.insts.len() <= usize::MAX
    &&& insts_ok(fr.insts, params, callees)
    &&& forall|name: Seq<char>|
        fr.names.contains_key(name) ==> binding_ok(#[trigger] fr.names[name], fr.insts, params)
}

/// Whether lowering has led from the frame `fr` to the frame `after` as it
/// should: no instruction of `fr` has gone or changed, and if `fr` was in
/// order and the instructions still fit the machine, `after` is in order.
pub open spec fn led(fr: Frame, after: Frame, params: int, callees: int) -> bool {
    &&& fr.insts.is_prefix_of(after.insts)
    &&& frame_ok(fr, params, callees) && after.insts.len() <= usize::MAX ==> frame_ok(
        after,
        params,
        callees,
    )
}

/// One more instruction that is in order keeps a frame in order.
pub proof fn lemma_emit_ok(fr: Frame, inst: InstModel, params: int, callees: int)
    requires
        frame_ok(fr, params, callees),
        fr.insts.len() < usize::MAX,
        inst_ok(fr.insts.push(inst), fr.insts.len() as int, params, callees),
    ensures
        frame_ok(fr.emit(inst), params, callees),
        fr.insts.is_prefix_of(fr.emit(inst).insts),
        fr.next_id().0 == fr.insts.len(),
{
    let after = fr.emit(inst);
    assert forall|k: int| 0 <= k < after.insts.len() implies #[trigger] inst_ok(
        after.insts,
        k,
        params,
        callees,
    ) by {
        if k < fr.insts.len() {
            assert(inst_ok(fr.insts, k, params, callees));
            assert(after.insts[k] == fr.insts[k]);
        }
    }
}

/// Lowering an expression keeps what was made, keeps the frame in order, and
/// yields a value that can be used.
pub proof fn lemma_lower_expr(scene: Scene, fr: Frame, e: Expression, params: int)
    requires
        scene.callees.len() <= usize::MAX,
    ensures
        led(fr, lower_expr(scene, fr, e).0, params, scene.callees.len() as int),
        frame_ok(fr, params, scene.callees.len() as int) && lower_expr(
            scene,
            fr,
            e,
        ).0.insts.len() <= usize::MAX ==> (lower_expr(scene, fr, e).1 matches Ok(Some(v))
            ==> value_ok(v, lower_expr(scene, fr, e).0.insts.len() as int, params)),
    decreases e, 0int,
{
    let callees = scene.callees.len() as int;
    let (after, r) = lower_expr(scene, fr, e);
    match e {
        Expression::LiteralExpression(_) => {},
        Expression::BlockExpression(b) => {
            lemma_lower_block(scene, fr, b.stmts@, 0, params);
        },
        Expression::AssignExpression(a) => {
            lemma_lower_assign(scene, fr, a, params);
        },
        Expression::VariableExpression(v) => {
            if fr.names.contains_key(v.name@) && frame_ok(fr, params, callees) && after.insts.len()
                <= usize::MAX {
                let binding = fr.names[v.name@];
                assert(binding_ok(binding, fr.insts, params));
                match binding.place {
                    NamendPlace::Local(slot) => {
                        lemma_emit_ok(fr, InstModel::Load(binding.type_, slot), params, callees);
                    },
                    NamendPlace::Param(_) => {},
                }
            }
        },
        Expression::BinaryExpression(b) => {
            lemma_lower_value(scene, fr, *b.left, params);
            let (after_left, left) = lower_value(scene, fr, *b.left);
            if left is Ok {
                lemma_lower_value(scene, after_left, *b.right, params);
                let (after_right, right) = lower_value(scene, after_left, *b.right);
                if right is Ok && frame_ok(fr, params, callees) && after.insts.len()
                    <= usize::MAX {
                    lemma_emit_ok(
                        after_right,
                        binary_inst(b.operator, left->Ok_0, right->Ok_0),
                        params,
                        callees,
                    );
                }
            }
        },
        Expression::NullExpression(_) => {},
        Expression::CallExpression(c) => {
            lemma_lower_args(scene, fr, c.args@, 0, Seq::empty(), params);
            let (after_args, args) = lower_args(scene, fr, c.args@, 0, Seq::empty());
            if args is Ok && frame_ok(fr, params, callees) && after.insts.len() <= usize::MAX {
                lemma_first_named_bound(scene.callees, c.callee@, 0);
                match first_named(scene.callees, c.callee@, 0) {
                    Some(i) => {
                        lemma_emit_ok(
                            after_args,
                            InstModel::Call(
                                MirFunctionId(i as usize),
                                args->Ok_0,
                            ),
                            params,
                            callees,
                        );
                    },
                    None => {},
                }
            }
        },
    }
}

/// The first function of a name, where there is one, is a function of the
/// module.
pub proof fn lemma_first_named_bound(names: Seq<Seq<char>>, name: Seq<char>, from: int)
    ensures
        first_named(names, name, from) matches Some(i) ==> from <= i < names.len() && names[i]
            == name,
    decreases names.len() - from,
{
    if 0 <= from < names.len() && names[from] != name {
        lemma_first_named_bound(names, name, from + 1);
    }
}

/// Lowering an expression whose value is needed keeps what was made, keeps the
/// frame in order, and yields a value that can be used.
pub proof fn lemma_lower_value(scene: Scene, fr: Frame, e: Expression, params: int)
    requires
        scene.callees.len() <= usize::MAX,
    ensures
        led(fr, lower_value(scene, fr, e).0, params, scene.callees.len() as int),
        frame_ok(fr, params, scene.callees.len() as int) && lower_value(
            scene,
            fr,
            e,
        ).0.insts.len() <= usize::MAX ==> (lower_value(scene, fr, e).1 matches Ok(v)
            ==> value_ok(v, lower_value(scene, fr, e).0.insts.len() as int, params)),
    decreases e, 1int,
{
    lemma_lower_expr(scene, fr, e, params);
}

/// Lowering the arguments of a call keeps what was made, keeps the frame in
/// order, and yields values that can be used, if those before them can.
pub proof fn lemma_lower_args(
    scene: Scene,
    fr: Frame,
    args: Seq<Expression>,
    i: int,
    done: Seq<MirValue>,
    params: int,
)
    requires
        scene.callees.len() <= usize::MAX,
    ensures
        led(fr, lower_args(scene, fr, args, i, done).0, params, scene.callees.len() as int),
        frame_ok(fr, params, scene.callees.len() as int) && lower_args(
            scene,
            fr,
            args,
            i,
            done,
        ).0.insts.len() <= usize::MAX && (forall|j: int|
            0 <= j < done.len() ==> value_ok(#[trigger] done[j], fr.insts.len() as int, params))
            ==> (lower_args(scene, fr, args, i, done).1 matches Ok(values) ==> forall|j: int|
            0 <= j < values.len() ==> value_ok(
                #[trigger] values[j],
                lower_args(scene, fr, args, i, done).0.insts.len() as int,
                params,
            )),
    decreases args, args.len() - i,
{
    if 0 <= i < args.len() {
        lemma_lower_value(scene, fr, args[i], params);
        let (after, r) = lower_value(scene, fr, args[i]);
        match r {
            Ok(v) => {
                lemma_lower_args(scene, after, args, i + 1, done.push(v), params);
            },
            Err(_) => {},
        }
    }
}

/// Lowering an assignment keeps what was made, keeps the frame in order, and
/// yields a value that can be used.
pub proof fn lemma_lower_assign(scene: Scene, fr: Frame, a: AssignExpression, params: int)
    requires
        scene.callees.len() <= usize::MAX,
    ensures
        led(fr, lower_assign(scene, fr, a).0, params, scene.callees.len() as int),
        frame_ok(fr, params, scene.callees.len() as int) && lower_assign(
            scene,
            fr,
            a,
        ).0.insts.len() <= usize::MAX ==> (lower_assign(scene, fr, a).1 matches Ok(Some(v))
            ==> value_ok(v, lower_assign(scene, fr, a).0.insts.len() as int, params)),
    decreases a, 0int,
{
    let callees = scene.callees.len() as int;
    let (last, _) = lower_assign(scene, fr, a);
    match a.asignee {
        Some(target) => {
            if fr.names.contains_key(target@) {
                match fr.names[target@].place {
                    NamendPlace::Local(slot) => {
                        lemma_lower_value(scene, fr, *a.value, params);
                        let (after, r) = lower_value(scene, fr, *a.value);
                        if r is Ok && frame_ok(fr, params, callees) && last.insts.len()
                            <= usize::MAX {
                            assert(binding_ok(fr.names[target@], fr.insts, params));
                            assert(after.insts[slot.0 as int] == fr.insts[slot.0 as int]);
                            lemma_emit_ok(after, InstModel::Store(slot, r->Ok_0), params, callees);
                        }
                    },
                    NamendPlace::Param(_) => {},
                }
            }
        },
        None => {
            lemma_lower_value(scene, fr, *a.value, params);
        },
    }
}

/// Lowering a `let` keeps what was made and keeps the frame in order.
pub proof fn lemma_lower_let(scene: Scene, fr: Frame, l: LetStatement, params: int)
    requires
        scene.callees.len() <= usize::MAX,
    ensures
        led(fr, lower_let(scene, fr, l).0, params, scene.callees.len() as int),
    decreases l, 0int,
{
    let callees = scene.callees.len() as int;
    let (last, _) = lower_let(scene, fr, l);
    let slot = fr.next_id();
    let reserved = fr.emit(InstModel::Alloca(l.type_));
    let binding = Binding { type_: l.type_, place: NamendPlace::Local(slot) };
    assert(fr.insts.is_prefix_of(reserved.insts));
    match l.assignee {
        Some(a) => {
            lemma_lower_assign(scene, reserved, a, params);
            let (after, r) = lower_assign(scene, reserved, a);
            assert(after.insts.is_prefix_of(last.insts)) by {
                match r {
                    Ok(Some(v)) => {
                        assert(after.insts.is_prefix_of(after.insts.push(InstModel::Store(slot, v))));
                    },
                    _ => {},
                }
            }
            lemma_prefix_chain(fr.insts, reserved.insts, after.insts);
            lemma_prefix_chain(fr.insts, after.insts, last.insts);
            if frame_ok(fr, params, callees) && last.insts.len() <= usize::MAX {
                lemma_emit_ok(fr, InstModel::Alloca(l.type_), params, callees);
                match r {
                    Ok(Some(v)) => {
                        assert(after.insts[slot.0 as int] == reserved.insts[slot.0 as int]);
                        lemma_emit_ok(after, InstModel::Store(slot, v), params, callees);
                        lemma_bind_ok(
                            after.emit(InstModel::Store(slot, v)),
                            l.name@,
                            binding,
                            params,
                            callees,
                        );
                    },
                    _ => {},
                }
            }
        },
        None => {
            if frame_ok(fr, params, callees) && last.insts.len() <= usize::MAX {
                lemma_emit_ok(fr, InstModel::Alloca(l.type_), params, callees);
                let null = MirValue::Constant(Constant::Null);
                lemma_emit_ok(reserved, InstModel::Store(slot, null), params, callees);
                lemma_bind_ok(
                    reserved.emit(InstModel::Store(slot, null)),
                    l.name@,
                    binding,
                    params,
                    callees,
                );
            }
        },
    }
}

/// What begins a beginning of some instructions begins the instructions.
pub proof fn lemma_prefix_chain(a: Seq<InstModel>, b: Seq<InstModel>, c: Seq<InstModel>)
    requires
        a.is_prefix_of(b),
        b.is_prefix_of(c),
    ensures
        a.is_prefix_of(c),
{
    assert forall|i: int| 0 <= i < a.len() implies a[i] == c[i] by {
        assert(a[i] == b.subrange(0, a.len() as int)[i]);
        assert(b[i] == c.subrange(0, b.len() as int)[i]);
    }
    assert(a =~= c.subrange(0, a.len() as int));
}

/// Binding a name to a place that is there keeps a frame in order.
pub proof fn lemma_bind_ok(fr: Frame, name: Seq<char>, binding: Binding, params: int, callees: int)
    requires
        frame_ok(fr, params, callees),
        binding_ok(binding, fr.insts, params),
    ensures
        frame_ok(fr.bind(name, binding), params, callees),
{
    let after = fr.bind(name, binding);
    assert forall|n: Seq<char>| after.names.contains_key(n) implies binding_ok(
        #[trigger] after.names[n],
        after.insts,
        params,
    ) by {
        if n != name {
            assert(fr.names.contains_key(n));
        }
    }
}

/// Lowering a `return` keeps what was made and keeps the frame in order.
pub proof fn lemma_lower_return(scene: Scene, fr: Frame, r: ReturnStatement, params: int)
    requires
        scene.callees.len() <= usize::MAX,
    ensures
        led(fr, lower_return(scene, fr, r).0, params, scene.callees.len() as int),
    decreases r, 0int,
{
    let callees = scene.callees.len() as int;
    let (last, _) = lower_return(scene, fr, r);
    lemma_lower_value(scene, fr, r.value, params);
    let (after, value) = lower_value(scene, fr, r.value);
    if value is Ok && frame_ok(fr, params, callees) && last.insts.len() <= usize::MAX {
        lemma_emit_ok(after, InstModel::Return(value->Ok_0, r.type_), params, callees);
    }
}

/// Lowering a statement keeps what was made and keeps the frame in order.
pub proof fn lemma_lower_stmt(scene: Scene, fr: Frame, s: Statement, params: int)
    requires
        scene.callees.len() <= usize::MAX,
    ensures
        led(fr, lower_stmt(scene, fr, s).0, params, scene.callees.len() as int),
    decreases s, 1int,
{
    match s {
        Statement::Expression(e) => {
            lemma_lower_expr(scene, fr, e, params);
        },
        Statement::ReturnStatement(r) => {
            lemma_lower_return(scene, fr, r, params);
        },
        Statement::LetStatement(l) => {
            lemma_lower_let(scene, fr, l, params);
        },
    }
}

/// Lowering the statements of a block expression keeps what was made and keeps
/// the frame in order.
pub proof fn lemma_lower_block(scene: Scene, fr: Frame, stmts: Seq<Statement>, i: int, params: int)
    requires
        scene.callees.len() <= usize::MAX,
    ensures
        led(fr, lower_block(scene, fr, stmts, i).0, params, scene.callees.len() as int),
    decreases stmts, stmts.len() - i,
{
    if 0 <= i < stmts.len() {
        lemma_lower_stmt(scene, fr, stmts[i], params);
        let (after, r) = lower_stmt(scene, fr, stmts[i]);
        if r is Ok {
            lemma_lower_block(scene, after, stmts, i + 1, params);
        }
    }
}

/// Lowering the statements of a function body keeps what was made and keeps
/// the frame in order, whatever faults it finds.
pub proof fn lemma_lower_body(scene: Scene, fr: Frame, stmts: Seq<Statement>, i: int, params: int)
    requires
        scene.callees.len() <= usize::MAX,
    ensures
        led(fr, lower_body(scene, fr, stmts, i).0, params, scene.callees.len() as int),
    decreases stmts.len() - i,
{
    if 0 <= i < stmts.len() {
        lemma_lower_stmt(scene, fr, stmts[i], params);
        lemma_lower_body(scene, lower_stmt(scene, fr, stmts[i]).0, stmts, i + 1, params);
    }
}

/// Parameters are bound to places that are there.
pub proof fn lemma_bind_params_ok(
    names: Map<Seq<char>, Binding>,
    params: Seq<FunctionParameter>,
    i: int,
)
    requires
        0 <= i,
        params.len() <= usize::MAX,
        forall|n: Seq<char>|
            names.contains_key(n) ==> binding_ok(
                #[trigger] names[n],
                Seq::empty(),
                params.len() as int,
            ),
    ensures
        forall|n: Seq<char>|
            bind_params(names, params, i).contains_key(n) ==> binding_ok(
                #[trigger] bind_params(names, params, i)[n],
                Seq::empty(),
                params.len() as int,
            ),
    decreases params.len() - i,
{
    if i < params.len() {
        let binding = Binding { type_: params[i].type_, place: NamendPlace::Param(i as usize) };
        let next = names.insert(params[i].name@, binding);
        assert forall|n: Seq<char>| next.contains_key(n) implies binding_ok(
            #[trigger] next[n],
            Seq::empty(),
            params.len() as int,
        ) by {
            if n != params[i].name@ {
                assert(names.contains_key(n));
            }
        }
        lemma_bind_params_ok(next, params, i + 1);
        assert(bind_params(names, params, i) == bind_params(next, params, i + 1));
    } else {
        assert(bind_params(names, params, i) == names);
    }
}

/// The instructions that a function lowers to are in order: every operand is
/// a constant, a parameter of the function, or the value of an earlier
/// instruction; every store and every load goes to the slot of an earlier
/// `Alloca`, a load with the type the slot was reserved for; and every call
/// names a function of the module.
pub proof fn lemma_lowered_function_in_order(scene: Scene, f: Function)
    requires
        scene.callees.len() <= usize::MAX,
        f.params@.len() <= usize::MAX,
        function_insts(scene, f).len() <= usize::MAX,
    ensures
        insts_ok(function_insts(scene, f), f.params@.len() as int, scene.callees.len() as int),
{
    lemma_bind_params_ok(Map::empty(), f.params@, 0);
    lemma_lower_body(scene, initial_frame(f), f.body.stmts@, 0, f.params@.len() as int);
}

} // verus!
