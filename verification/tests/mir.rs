use sable::info::ValType;
use sable::mir::block::{MirBlock, MirBlockId};
use sable::mir::builder::Builder;
use sable::mir::function::{MirFunction, MirFunctionId};
use sable::mir::instruction::{
    AddInst, AllocaInst, CallInst, DivInst, Instruction, LoadInst, MirInstId, MulInst, ReturnInst,
    StoreInst, SubInst,
};
use sable::mir::module::MirModule;
use sable::mir::value::{Constant, MirValue};
use std::ops::Range;

#[test]
fn block_grows_at_its_end_only() {
    let mut block = MirBlock::new("entry", MirInstId(3));
    assert_eq!(block.name(), "entry");
    assert_eq!(block.range(), Range { start: 3, end: 3 });
    block.expand(MirInstId(3));
    assert_eq!(block.range(), Range { start: 3, end: 3 });
    block.expand(MirInstId(6));
    assert_eq!(block.range(), Range { start: 3, end: 6 });
    block.expand(MirInstId(4));
    assert_eq!(block.range(), Range { start: 3, end: 6 });
    block.expand(MirInstId(1));
    assert_eq!(block.range(), Range { start: 3, end: 6 });
    block.expand(MirInstId(usize::MAX));
    assert_eq!(block.range(), Range { start: 3, end: usize::MAX });
    assert_eq!(block.name(), "entry");
}

#[test]
fn function_numbers_instructions_and_blocks_in_order() {
    let mut f = MirFunction::new("f");
    assert_eq!(f.name(), "f");
    assert_eq!(f.get_last_blk(), None);
    f.add_param(ValType::I32);
    f.add_param(ValType::F32);
    assert_eq!(f.params, vec![ValType::I32, ValType::F32]);
    assert_eq!(f.add_inst(Instruction::Alloca(AllocaInst::new(ValType::I32))), MirInstId(0));
    assert_eq!(f.add_inst(Instruction::Load(LoadInst::new(ValType::I32, MirInstId(0)))), MirInstId(1));
    assert_eq!(f.add_block(MirBlock::new("a", MirInstId(0))), MirBlockId(0));
    assert_eq!(f.add_block(MirBlock::new("b", MirInstId(1))), MirBlockId(1));
    assert_eq!(f.get_last_blk(), Some(MirBlockId(1)));
    assert_eq!(f.get_block(MirBlockId(1)).unwrap().name(), "b");
    assert!(f.get_block(MirBlockId(2)).is_none());
    assert!(f.get_inst(MirInstId(2)).is_none());
    assert_eq!(f.get_insts(MirBlockId(0)), &f.instructions[0..1]);
    assert_eq!(f.get_insts(MirBlockId(1)), &f.instructions[1..2]);
}

#[test]
fn module_numbers_functions_in_order() {
    let mut module = MirModule::new("m");
    assert_eq!(module.name(), "m");
    assert_eq!(module.add_func(MirFunction::new("f")), MirFunctionId(0));
    assert_eq!(module.add_func(MirFunction::new("g")), MirFunctionId(1));
    assert_eq!(module.add_func(MirFunction::new("f")), MirFunctionId(2));
    assert_eq!(module.get_funcs().len(), 3);
    assert_eq!(module.get_func(MirFunctionId(1)).unwrap().name(), "g");
    assert!(module.get_func(MirFunctionId(3)).is_none());
    assert_eq!(module.find_func("f"), Some(MirFunctionId(0)));
    assert_eq!(module.find_func("g"), Some(MirFunctionId(1)));
    assert_eq!(module.find_func("h"), None);
}

#[test]
fn builder_appends_to_the_selected_function_and_block() {
    let mut module = MirModule::new("m");
    let mut f = MirFunction::new("f");
    f.add_block(MirBlock::new("entry", MirInstId(0)));
    module.add_func(MirFunction::new("other"));
    let fid = module.add_func(f);
    let mut builder = Builder::new(module, fid);
    builder.set_selected(MirBlockId(0));
    let null = MirValue::Constant(Constant::Null);
    let slot = builder.build_alloca(ValType::I32);
    assert_eq!(slot, MirInstId(0));
    builder.build_store(slot, null);
    let loaded = builder.build_load(ValType::I32, slot);
    assert_eq!(loaded, MirInstId(2));
    let a = builder.build_add(MirValue::Inst(loaded), null);
    let s = builder.build_sub(MirValue::Inst(a), null);
    let m = builder.build_mul(MirValue::Inst(s), null);
    let d = builder.build_div(MirValue::Inst(m), null);
    let c = builder.build_call(MirFunctionId(0), vec![MirValue::Inst(d)]);
    assert_eq!(c, MirInstId(7));
    builder.build_return(ValType::I32, MirValue::Inst(c));
    let module = builder.finish();
    assert_eq!(module.get_funcs()[0].instructions.len(), 0);
    let f = &module.get_funcs()[1];
    assert_eq!(
        f.instructions,
        vec![
            Instruction::Alloca(AllocaInst::new(ValType::I32)),
            Instruction::Store(StoreInst::new(MirInstId(0), null)),
            Instruction::Load(LoadInst::new(ValType::I32, MirInstId(0))),
            Instruction::Add(AddInst::new(MirValue::Inst(MirInstId(2)), null)),
            Instruction::Sub(SubInst::new(MirValue::Inst(MirInstId(3)), null)),
            Instruction::Mul(MulInst::new(MirValue::Inst(MirInstId(4)), null)),
            Instruction::Div(DivInst::new(MirValue::Inst(MirInstId(5)), null)),
            Instruction::Call(CallInst::new(MirFunctionId(0), vec![MirValue::Inst(MirInstId(6))])),
            Instruction::Return(ReturnInst::new(MirValue::Inst(MirInstId(7)), ValType::I32)),
        ]
    );
    assert_eq!(f.blocks[0].range(), Range { start: 0, end: 8 });
    assert_eq!(f.get_insts(MirBlockId(0)), &f.instructions[..]);
}

#[test]
fn builder_select_moves_between_functions() {
    let mut module = MirModule::new("m");
    for name in ["f", "g"] {
        let mut f = MirFunction::new(name);
        f.add_block(MirBlock::new("entry", MirInstId(0)));
        module.add_func(f);
    }
    let mut builder = Builder::new(module, MirFunctionId(0));
    builder.select(MirFunctionId(1), MirBlockId(0));
    assert_eq!(builder.build_alloca(ValType::F32), MirInstId(0));
    builder.select(MirFunctionId(0), MirBlockId(0));
    assert_eq!(builder.build_alloca(ValType::I32), MirInstId(0));
    assert_eq!(builder.build_alloca(ValType::I32), MirInstId(1));
    let module = builder.finish();
    assert_eq!(module.get_funcs()[0].instructions.len(), 2);
    assert_eq!(module.get_funcs()[1].instructions.len(), 1);
    assert_eq!(module.get_funcs()[1].blocks[0].range(), Range { start: 0, end: 0 });
    assert_eq!(module.get_funcs()[0].blocks[0].range(), Range { start: 0, end: 1 });
}

#[test]
fn block_holds_the_one_instruction_built_into_it() {
    let mut module = MirModule::new("m");
    let mut f = MirFunction::new("f");
    f.add_block(MirBlock::new("entry", MirInstId(0)));
    let fid = module.add_func(f);
    let mut builder = Builder::new(module, fid);
    builder.set_selected(MirBlockId(0));
    let null = MirValue::Constant(Constant::Null);
    assert_eq!(builder.build_sub(null, null), MirInstId(0));
    let module = builder.finish();
    let f = &module.get_funcs()[0];
    assert_eq!(f.get_insts(MirBlockId(0)), &[Instruction::Sub(SubInst::new(null, null))][..]);
    assert_eq!(f.blocks[0].range(), Range { start: 0, end: 0 });
}
