//! An element-wise vector-add fixture: two five-element vectors are laid
//! out in the variable store, then each pair of elements is loaded, added
//! and stored, outputting every sum.

use vstd::prelude::*;
use crate::instruction::Instruction;
use crate::instruction_container::IdAllocator;
use crate::program::Program;
use crate::render::spec_output_line;
use crate::vm::{spec_exe, spec_run_from, spec_zero_regs, ExecutionError};

verus! {

/// The three instructions that store `elem` into variable `variable`.
pub open spec fn spec_vector_block(variable: usize, elem: i32) -> Seq<Instruction> {
    seq![
        Instruction::Var(variable),
        Instruction::SetReg { register: 0, constant: elem },
        Instruction::Store { register: 0, variable },
    ]
}

/// The instructions that lay out `elements` in consecutive variables
/// starting at `offset`.
pub open spec fn spec_create_vector_codes(offset: usize, elements: Seq<i32>) -> Seq<Instruction>
    decreases elements.len(),
{
    if elements.len() == 0 {
        Seq::empty()
    } else {
        spec_create_vector_codes(offset, elements.drop_last()) + spec_vector_block(
            ((offset + elements.len() - 1) as usize),
            elements.last(),
        )
    }
}

/// The six instructions that add variables `var_a` and `var_b` into a
/// freshly declared `out_var` and output the sum.
pub open spec fn spec_add_and_store_codes(var_a: usize, var_b: usize, out_var: usize) -> Seq<
    Instruction,
> {
    seq![
        Instruction::Var(out_var),
        Instruction::Load { register: 0, variable: var_a },
        Instruction::Load { register: 1, variable: var_b },
        Instruction::Add { rega: 0, regb: 1, outreg: 0 },
        Instruction::Store { register: 0, variable: out_var },
        Instruction::Output(0),
    ]
}

/// The add-and-store blocks for element pairs `0 .. x` of the fixture's
/// vector layout (first vector at variable 0, second at 10, sums at 20).
pub open spec fn spec_zip_codes(x: int) -> Seq<Instruction>
    decreases x,
{
    if x <= 0 {
        Seq::empty()
    } else {
        spec_zip_codes(x - 1) + spec_add_and_store_codes(
            ((x - 1) as usize),
            ((x + 9) as usize),
            ((x + 19) as usize),
        )
    }
}

/// The full instruction sequence of the vector-add fixture.
pub open spec fn spec_vecmul_codes() -> Seq<Instruction> {
    spec_create_vector_codes(0, seq![1i32, 2i32, 3i32, 4i32, 5i32]) + spec_create_vector_codes(
        10,
        seq![1i32, 2i32, 3i32, 4i32, 5i32],
    ) + spec_zip_codes(5)
}

/// Lays out `elements` in consecutive variables starting at `offset`.
pub fn create_vector(offset: usize, elements: Vec<i32>) -> (r: Vec<Instruction>)
    requires
        offset + elements@.len() <= usize::MAX,
    ensures
        r@ == spec_create_vector_codes(offset, elements@),
        r@.len() == 3 * elements@.len(),
{
    let mut r: Vec<Instruction> = Vec::new();
    let n = elements.len();
    for idx in 0..n
        invariant
            n == elements@.len(),
            offset + n <= usize::MAX,
            r@.len() == 3 * idx,
            r@ == spec_create_vector_codes(offset, elements@.subrange(0, idx as int)),
    {
        r.push(Instruction::Var(idx + offset));
        r.push(Instruction::SetReg { register: 0, constant: elements[idx] });
        r.push(Instruction::Store { register: 0, variable: idx + offset });
        proof {
            let pre = elements@.subrange(0, idx as int);
            let cur = elements@.subrange(0, idx + 1);
            assert(cur.drop_last() =~= pre);
            assert(cur.last() == elements@[idx as int]);
            assert(r@ =~= spec_create_vector_codes(offset, cur));
        }
    }
    proof {
        assert(elements@.subrange(0, n as int) =~= elements@);
    }
    r
}

/// Adds variables `var_a` and `var_b` into a freshly declared `out_var`
/// and outputs the sum.
pub fn add_and_store(var_a: usize, var_b: usize, out_var: usize) -> (r: Vec<Instruction>)
    ensures
        r@ == spec_add_and_store_codes(var_a, var_b, out_var),
{
    let r: Vec<Instruction> = vec![
        Instruction::Var(out_var),
        Instruction::Load { register: 0, variable: var_a },
        Instruction::Load { register: 1, variable: var_b },
        Instruction::Add { rega: 0, regb: 1, outreg: 0 },
        Instruction::Store { register: 0, variable: out_var },
        Instruction::Output(0),
    ];
    proof {
        assert(r@ =~= spec_add_and_store_codes(var_a, var_b, out_var));
    }
    r
}

/// Builds the element-wise vector-add fixture program over `[1,2,3,4,5]`
/// and `[1,2,3,4,5]`.
pub fn prog(ids: &mut IdAllocator) -> (r: Program)
    requires
        old(ids).spec_next() + 60 <= usize::MAX,
    ensures
        r.codes() == spec_vecmul_codes(),
{
    let vec_a_offset: usize = 0;
    let vec_b_offset: usize = 10;
    let vec_c_offset: usize = 20;
    let mut a_init = create_vector(vec_a_offset, vec![1, 2, 3, 4, 5]);
    let mut b_init = create_vector(vec_b_offset, vec![1, 2, 3, 4, 5]);
    let mut zip: Vec<Instruction> = Vec::new();
    for x in 0..5usize
        invariant
            vec_a_offset == 0usize,
            vec_b_offset == 10usize,
            vec_c_offset == 20usize,
            zip@.len() == 6 * x,
            zip@ == spec_zip_codes(x as int),
    {
        let mut block = add_and_store(x + vec_a_offset, x + vec_b_offset, x + vec_c_offset);
        zip.append(&mut block);
        proof {
            assert(x + vec_a_offset == ((x + 1 - 1) as usize));
            assert(zip@ =~= spec_zip_codes(x + 1));
        }
    }

    a_init.append(&mut b_init);
    a_init.append(&mut zip);
    proof {
        assert(a_init@ =~= spec_vecmul_codes());
    }
    Program::new(a_init, ids)
}

spec fn spec_vecmul_flat() -> Seq<Instruction> {
    seq![
        Instruction::Var(0),
        Instruction::SetReg { register: 0, constant: 1 },
        Instruction::Store { register: 0, variable: 0 },
        Instruction::Var(1),
        Instruction::SetReg { register: 0, constant: 2 },
        Instruction::Store { register: 0, variable: 1 },
        Instruction::Var(2),
        Instruction::SetReg { register: 0, constant: 3 },
        Instruction::Store { register: 0, variable: 2 },
        Instruction::Var(3),
        Instruction::SetReg { register: 0, constant: 4 },
        Instruction::Store { register: 0, variable: 3 },
        Instruction::Var(4),
        Instruction::SetReg { register: 0, constant: 5 },
        Instruction::Store { register: 0, variable: 4 },
        Instruction::Var(10),
        Instruction::SetReg { register: 0, constant: 1 },
        Instruction::Store { register: 0, variable: 10 },
        Instruction::Var(11),
        Instruction::SetReg { register: 0, constant: 2 },
        Instruction::Store { register: 0, variable: 11 },
        Instruction::Var(12),
        Instruction::SetReg { register: 0, constant: 3 },
        Instruction::Store { register: 0, variable: 12 },
        Instruction::Var(13),
        Instruction::SetReg { register: 0, constant: 4 },
        Instruction::Store { register: 0, variable: 13 },
        Instruction::Var(14),
        Instruction::SetReg { register: 0, constant: 5 },
        Instruction::Store { register: 0, variable: 14 },
        Instruction::Var(20),
        Instruction::Load { register: 0, variable: 0 },
        Instruction::Load { register: 1, variable: 10 },
        Instruction::Add { rega: 0, regb: 1, outreg: 0 },
        Instruction::Store { register: 0, variable: 20 },
        Instruction::Output(0),
        Instruction::Var(21),
        Instruction::Load { register: 0, variable: 1 },
        Instruction::Load { register: 1, variable: 11 },
        Instruction::Add { rega: 0, regb: 1, outreg: 0 },
        Instruction::Store { register: 0, variable: 21 },
        Instruction::Output(0),
        Instruction::Var(22),
        Instruction::Load { register: 0, variable: 2 },
        Instruction::Load { register: 1, variable: 12 },
        Instruction::Add { rega: 0, regb: 1, outreg: 0 },
        Instruction::Store { register: 0, variable: 22 },
        Instruction::Output(0),
        Instruction::Var(23),
        Instruction::Load { register: 0, variable: 3 },
        Instruction::Load { register: 1, variable: 13 },
        Instruction::Add { rega: 0, regb: 1, outreg: 0 },
        Instruction::Store { register: 0, variable: 23 },
        Instruction::Output(0),
        Instruction::Var(24),
        Instruction::Load { register: 0, variable: 4 },
        Instruction::Load { register: 1, variable: 14 },
        Instruction::Add { rega: 0, regb: 1, outreg: 0 },
        Instruction::Store { register: 0, variable: 24 },
        Instruction::Output(0),
    ]
}

proof fn lemma_vecmul_flat()
    ensures
        spec_vecmul_codes() == spec_vecmul_flat(),
{
    let e5 = seq![1i32, 2i32, 3i32, 4i32, 5i32];
    let e4 = seq![1i32, 2i32, 3i32, 4i32];
    let e3 = seq![1i32, 2i32, 3i32];
    let e2 = seq![1i32, 2i32];
    let e1 = seq![1i32];
    let e0 = Seq::<i32>::empty();
    assert(e5.drop_last() =~= e4);
    assert(e4.drop_last() =~= e3);
    assert(e3.drop_last() =~= e2);
    assert(e2.drop_last() =~= e1);
    assert(e1.drop_last() =~= e0);
    assert(spec_create_vector_codes(0, e0) =~= Seq::<Instruction>::empty());
    assert(spec_create_vector_codes(0, e1) =~= spec_create_vector_codes(0, e0) + spec_vector_block(0, 1i32));
    assert(spec_create_vector_codes(0, e2) =~= spec_create_vector_codes(0, e1) + spec_vector_block(1, 2i32));
    assert(spec_create_vector_codes(0, e3) =~= spec_create_vector_codes(0, e2) + spec_vector_block(2, 3i32));
    assert(spec_create_vector_codes(0, e4) =~= spec_create_vector_codes(0, e3) + spec_vector_block(3, 4i32));
    assert(spec_create_vector_codes(0, e5) =~= spec_create_vector_codes(0, e4) + spec_vector_block(4, 5i32));
    assert(spec_create_vector_codes(10, e0) =~= Seq::<Instruction>::empty());
    assert(spec_create_vector_codes(10, e1) =~= spec_create_vector_codes(10, e0) + spec_vector_block(10, 1i32));
    assert(spec_create_vector_codes(10, e2) =~= spec_create_vector_codes(10, e1) + spec_vector_block(11, 2i32));
    assert(spec_create_vector_codes(10, e3) =~= spec_create_vector_codes(10, e2) + spec_vector_block(12, 3i32));
    assert(spec_create_vector_codes(10, e4) =~= spec_create_vector_codes(10, e3) + spec_vector_block(13, 4i32));
    assert(spec_create_vector_codes(10, e5) =~= spec_create_vector_codes(10, e4) + spec_vector_block(14, 5i32));
    assert(spec_zip_codes(0) =~= Seq::<Instruction>::empty());
    assert(spec_zip_codes(1) =~= spec_zip_codes(0) + spec_add_and_store_codes(0, 10, 20));
    assert(spec_zip_codes(2) =~= spec_zip_codes(1) + spec_add_and_store_codes(1, 11, 21));
    assert(spec_zip_codes(3) =~= spec_zip_codes(2) + spec_add_and_store_codes(2, 12, 22));
    assert(spec_zip_codes(4) =~= spec_zip_codes(3) + spec_add_and_store_codes(3, 13, 23));
    assert(spec_zip_codes(5) =~= spec_zip_codes(4) + spec_add_and_store_codes(4, 14, 24));
    assert(spec_vecmul_codes() =~= spec_vecmul_flat());
}

/// Reference scenario: the element-wise vector-add fixture completes at
/// cost 85 and outputs the five element sums in order.
pub proof fn lemma_vecmul_result(rc: nat)
    requires
        rc >= 2,
    ensures
        spec_exe(rc, Map::empty(), spec_vecmul_codes()) == Ok::<
            (nat, Seq<Seq<char>>),
            ExecutionError,
        >((85, seq![
            spec_output_line(0, 2),
            spec_output_line(0, 4),
            spec_output_line(0, 6),
            spec_output_line(0, 8),
            spec_output_line(0, 10),
        ])),
{
    lemma_vecmul_flat();
    let codes = spec_vecmul_codes();
    let r0 = spec_zero_regs(rc);
    let m0 = Map::<usize, i32>::empty();
    let o0 = Seq::<Seq<char>>::empty();
    let m1 = m0.insert(0, 0i32);
    let r1 = r0.update(0, 1i32);
    let m2 = m1.insert(0, 1i32);
    let m3 = m2.insert(1, 0i32);
    let r2 = r1.update(0, 2i32);
    let m4 = m3.insert(1, 2i32);
    let m5 = m4.insert(2, 0i32);
    let r3 = r2.update(0, 3i32);
    let m6 = m5.insert(2, 3i32);
    let m7 = m6.insert(3, 0i32);
    let r4 = r3.update(0, 4i32);
    let m8 = m7.insert(3, 4i32);
    let m9 = m8.insert(4, 0i32);
    let r5 = r4.update(0, 5i32);
    let m10 = m9.insert(4, 5i32);
    let m11 = m10.insert(10, 0i32);
    let r6 = r5.update(0, 1i32);
    let m12 = m11.insert(10, 1i32);
    let m13 = m12.insert(11, 0i32);
    let r7 = r6.update(0, 2i32);
    let m14 = m13.insert(11, 2i32);
    let m15 = m14.insert(12, 0i32);
    let r8 = r7.update(0, 3i32);
    let m16 = m15.insert(12, 3i32);
    let m17 = m16.insert(13, 0i32);
    let r9 = r8.update(0, 4i32);
    let m18 = m17.insert(13, 4i32);
    let m19 = m18.insert(14, 0i32);
    let r10 = r9.update(0, 5i32);
    let m20 = m19.insert(14, 5i32);
    let m21 = m20.insert(20, 0i32);
    let r11 = r10.update(0, 1i32);
    let r12 = r11.update(1, 1i32);
    let r13 = r12.update(0, 2i32);
    let m22 = m21.insert(20, 2i32);
    let o1 = o0.push(spec_output_line(0, 2));
    let m23 = m22.insert(21, 0i32);
    let r14 = r13.update(0, 2i32);
    let r15 = r14.update(1, 2i32);
    let r16 = r15.update(0, 4i32);
    let m24 = m23.insert(21, 4i32);
    let o2 = o1.push(spec_output_line(0, 4));
    let m25 = m24.insert(22, 0i32);
    let r17 = r16.update(0, 3i32);
    let r18 = r17.update(1, 3i32);
    let r19 = r18.update(0, 6i32);
    let m26 = m25.insert(22, 6i32);
    let o3 = o2.push(spec_output_line(0, 6));
    let m27 = m26.insert(23, 0i32);
    let r20 = r19.update(0, 4i32);
    let r21 = r20.update(1, 4i32);
    let r22 = r21.update(0, 8i32);
    let m28 = m27.insert(23, 8i32);
    let o4 = o3.push(spec_output_line(0, 8));
    let m29 = m28.insert(24, 0i32);
    let r23 = r22.update(0, 5i32);
    let r24 = r23.update(1, 5i32);
    let r25 = r24.update(0, 10i32);
    let m30 = m29.insert(24, 10i32);
    let o5 = o4.push(spec_output_line(0, 10));
    assert(spec_run_from(codes, 0, r0, m0, 0, o0, 0) == spec_run_from(codes, 1, r0, m1, 1, o0, 1));
    assert(spec_run_from(codes, 1, r0, m1, 1, o0, 1) == spec_run_from(codes, 2, r1, m1, 2, o0, 2));
    assert(spec_run_from(codes, 2, r1, m1, 2, o0, 2) == spec_run_from(codes, 3, r1, m2, 4, o0, 3));
    assert(spec_run_from(codes, 3, r1, m2, 4, o0, 3) == spec_run_from(codes, 4, r1, m3, 5, o0, 4));
    assert(spec_run_from(codes, 4, r1, m3, 5, o0, 4) == spec_run_from(codes, 5, r2, m3, 6, o0, 5));
    assert(spec_run_from(codes, 5, r2, m3, 6, o0, 5) == spec_run_from(codes, 6, r2, m4, 8, o0, 6));
    assert(spec_run_from(codes, 6, r2, m4, 8, o0, 6) == spec_run_from(codes, 7, r2, m5, 9, o0, 7));
    assert(spec_run_from(codes, 7, r2, m5, 9, o0, 7) == spec_run_from(codes, 8, r3, m5, 10, o0, 8));
    assert(spec_run_from(codes, 8, r3, m5, 10, o0, 8) == spec_run_from(codes, 9, r3, m6, 12, o0, 9));
    assert(spec_run_from(codes, 9, r3, m6, 12, o0, 9) == spec_run_from(codes, 10, r3, m7, 13, o0, 10));
    assert(spec_run_from(codes, 10, r3, m7, 13, o0, 10) == spec_run_from(codes, 11, r4, m7, 14, o0, 11));
    assert(spec_run_from(codes, 11, r4, m7, 14, o0, 11) == spec_run_from(codes, 12, r4, m8, 16, o0, 12));
    assert(spec_run_from(codes, 12, r4, m8, 16, o0, 12) == spec_run_from(codes, 13, r4, m9, 17, o0, 13));
    assert(spec_run_from(codes, 13, r4, m9, 17, o0, 13) == spec_run_from(codes, 14, r5, m9, 18, o0, 14));
    assert(spec_run_from(codes, 14, r5, m9, 18, o0, 14) == spec_run_from(codes, 15, r5, m10, 20, o0, 15));
    assert(spec_run_from(codes, 15, r5, m10, 20, o0, 15) == spec_run_from(codes, 16, r5, m11, 21, o0, 16));
    assert(spec_run_from(codes, 16, r5, m11, 21, o0, 16) == spec_run_from(codes, 17, r6, m11, 22, o0, 17));
    assert(spec_run_from(codes, 17, r6, m11, 22, o0, 17) == spec_run_from(codes, 18, r6, m12, 24, o0, 18));
    assert(spec_run_from(codes, 18, r6, m12, 24, o0, 18) == spec_run_from(codes, 19, r6, m13, 25, o0, 19));
    assert(spec_run_from(codes, 19, r6, m13, 25, o0, 19) == spec_run_from(codes, 20, r7, m13, 26, o0, 20));
    assert(spec_run_from(codes, 20, r7, m13, 26, o0, 20) == spec_run_from(codes, 21, r7, m14, 28, o0, 21));
    assert(spec_run_from(codes, 21, r7, m14, 28, o0, 21) == spec_run_from(codes, 22, r7, m15, 29, o0, 22));
    assert(spec_run_from(codes, 22, r7, m15, 29, o0, 22) == spec_run_from(codes, 23, r8, m15, 30, o0, 23));
    assert(spec_run_from(codes, 23, r8, m15, 30, o0, 23) == spec_run_from(codes, 24, r8, m16, 32, o0, 24));
    assert(spec_run_from(codes, 24, r8, m16, 32, o0, 24) == spec_run_from(codes, 25, r8, m17, 33, o0, 25));
    assert(spec_run_from(codes, 25, r8, m17, 33, o0, 25) == spec_run_from(codes, 26, r9, m17, 34, o0, 26));
    assert(spec_run_from(codes, 26, r9, m17, 34, o0, 26) == spec_run_from(codes, 27, r9, m18, 36, o0, 27));
    assert(spec_run_from(codes, 27, r9, m18, 36, o0, 27) == spec_run_from(codes, 28, r9, m19, 37, o0, 28));
    assert(spec_run_from(codes, 28, r9, m19, 37, o0, 28) == spec_run_from(codes, 29, r10, m19, 38, o0, 29));
    assert(spec_run_from(codes, 29, r10, m19, 38, o0, 29) == spec_run_from(codes, 30, r10, m20, 40, o0, 30));
    assert(spec_run_from(codes, 30, r10, m20, 40, o0, 30) == spec_run_from(codes, 31, r10, m21, 41, o0, 31));
    assert(spec_run_from(codes, 31, r10, m21, 41, o0, 31) == spec_run_from(codes, 32, r11, m21, 43, o0, 32));
    assert(spec_run_from(codes, 32, r11, m21, 43, o0, 32) == spec_run_from(codes, 33, r12, m21, 45, o0, 33));
    assert(spec_run_from(codes, 33, r12, m21, 45, o0, 33) == spec_run_from(codes, 34, r13, m21, 46, o0, 34));
    assert(spec_run_from(codes, 34, r13, m21, 46, o0, 34) == spec_run_from(codes, 35, r13, m22, 48, o0, 35));
    assert(spec_run_from(codes, 35, r13, m22, 48, o0, 35) == spec_run_from(codes, 36, r13, m22, 49, o1, 36));
    assert(spec_run_from(codes, 36, r13, m22, 49, o1, 36) == spec_run_from(codes, 37, r13, m23, 50, o1, 37));
    assert(spec_run_from(codes, 37, r13, m23, 50, o1, 37) == spec_run_from(codes, 38, r14, m23, 52, o1, 38));
    assert(spec_run_from(codes, 38, r14, m23, 52, o1, 38) == spec_run_from(codes, 39, r15, m23, 54, o1, 39));
    assert(spec_run_from(codes, 39, r15, m23, 54, o1, 39) == spec_run_from(codes, 40, r16, m23, 55, o1, 40));
    assert(spec_run_from(codes, 40, r16, m23, 55, o1, 40) == spec_run_from(codes, 41, r16, m24, 57, o1, 41));
    assert(spec_run_from(codes, 41, r16, m24, 57, o1, 41) == spec_run_from(codes, 42, r16, m24, 58, o2, 42));
    assert(spec_run_from(codes, 42, r16, m24, 58, o2, 42) == spec_run_from(codes, 43, r16, m25, 59, o2, 43));
    assert(spec_run_from(codes, 43, r16, m25, 59, o2, 43) == spec_run_from(codes, 44, r17, m25, 61, o2, 44));
    assert(spec_run_from(codes, 44, r17, m25, 61, o2, 44) == spec_run_from(codes, 45, r18, m25, 63, o2, 45));
    assert(spec_run_from(codes, 45, r18, m25, 63, o2, 45) == spec_run_from(codes, 46, r19, m25, 64, o2, 46));
    assert(spec_run_from(codes, 46, r19, m25, 64, o2, 46) == spec_run_from(codes, 47, r19, m26, 66, o2, 47));
    assert(spec_run_from(codes, 47, r19, m26, 66, o2, 47) == spec_run_from(codes, 48, r19, m26, 67, o3, 48));
    assert(spec_run_from(codes, 48, r19, m26, 67, o3, 48) == spec_run_from(codes, 49, r19, m27, 68, o3, 49));
    assert(spec_run_from(codes, 49, r19, m27, 68, o3, 49) == spec_run_from(codes, 50, r20, m27, 70, o3, 50));
    assert(spec_run_from(codes, 50, r20, m27, 70, o3, 50) == spec_run_from(codes, 51, r21, m27, 72, o3, 51));
    assert(spec_run_from(codes, 51, r21, m27, 72, o3, 51) == spec_run_from(codes, 52, r22, m27, 73, o3, 52));
    assert(spec_run_from(codes, 52, r22, m27, 73, o3, 52) == spec_run_from(codes, 53, r22, m28, 75, o3, 53));
    assert(spec_run_from(codes, 53, r22, m28, 75, o3, 53) == spec_run_from(codes, 54, r22, m28, 76, o4, 54));
    assert(spec_run_from(codes, 54, r22, m28, 76, o4, 54) == spec_run_from(codes, 55, r22, m29, 77, o4, 55));
    assert(spec_run_from(codes, 55, r22, m29, 77, o4, 55) == spec_run_from(codes, 56, r23, m29, 79, o4, 56));
    assert(spec_run_from(codes, 56, r23, m29, 79, o4, 56) == spec_run_from(codes, 57, r24, m29, 81, o4, 57));
    assert(spec_run_from(codes, 57, r24, m29, 81, o4, 57) == spec_run_from(codes, 58, r25, m29, 82, o4, 58));
    assert(spec_run_from(codes, 58, r25, m29, 82, o4, 58) == spec_run_from(codes, 59, r25, m30, 84, o4, 59));
    assert(spec_run_from(codes, 59, r25, m30, 84, o4, 59) == spec_run_from(codes, 60, r25, m30, 85, o5, 60));
    assert(o5 =~= seq![
        spec_output_line(0, 2),
        spec_output_line(0, 4),
        spec_output_line(0, 6),
        spec_output_line(0, 8),
        spec_output_line(0, 10),
    ]);
}

} // verus!
