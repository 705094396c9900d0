use vstd::prelude::*;

use crate::stages::{
    exec_stage_0, exec_stage_1, exec_stage_2a, exec_stage_2b, exec_stage_3a, exec_stage_3b,
    exec_stage_4, exec_stage_5a, exec_stage_5b, stage_1_spec, stage_2a_spec, stage_2b_spec,
    stage_3a_spec, stage_4_spec, stage_5a_spec, word_at, write_word, ExecError,
};

verus! {

/// The size of the address space, in bytes.
pub const MEM_SIZE: usize = 65536;

/// The graphics framebuffer, `0x8000..=0x895F`.
pub const GFX_START: usize = 0x8000;

pub const GFX_END: usize = 0x8960;

/// The 16-bit switch-input word.
pub const SWITCH_ADDR: u16 = 0x8A00;

/// The 8-bit button-input byte.
pub const BUTTON_ADDR: usize = 0x8A02;

/// The 16-bit LED-output word.
pub const LED_ADDR: u16 = 0x8A04;

/// The machine: a 64 KiB memory image and sixteen 16-bit registers (0 = PC,
/// 1 = SP, 2 = SR, 3 = CG, 4 to 15 general purpose).
pub struct Emulator {
    pub mem: Vec<u8>,
    pub regs: Vec<u16>,
    /// Set when an instruction faults; a halted emulator makes no further progress.
    pub halted: bool,
}

/// One instruction run through the six stages on memory `mem` and registers
/// `regs`: the memory and registers after it, or `None` when it faults.
#[verifier::opaque]
pub open spec fn step(mem: Seq<u8>, regs: Seq<u16>) -> Option<(Seq<u8>, Seq<u16>)> {
    let w = word_at(mem, regs[0]);
    let next_word = word_at(mem, regs[0].wrapping_add(2));
    let next_next_word = word_at(mem, regs[0].wrapping_add(4));
    let d = stage_1_spec(w);
    let s2 = stage_2a_spec(w, next_word, d.src_addr_mode, d.src_reg_id, regs);
    let operand_0 = stage_2b_spec(
        w,
        d.src_addr_mode,
        d.src_reg_id,
        s2.mem_read_addr_0,
        mem,
        regs,
    );
    let s3 = stage_3a_spec(
        w,
        next_word,
        next_next_word,
        s2.used_instr_word_for_src,
        d.dst_addr_mode,
        d.dst_reg_id,
        regs,
    );
    let operand_1 = if s3.mem_read_addr_1 != 0 {
        word_at(mem, s3.mem_read_addr_1)
    } else {
        regs[d.dst_reg_id as int]
    };
    match stage_4_spec(w, d.opcode, operand_0, operand_1, regs) {
        None => None,
        Some(s4) => {
            let (new_regs, addr) = stage_5a_spec(
                regs,
                s2.inc_src_reg,
                s4.dec_sp,
                s4.new_cf,
                s4.new_zf,
                s4.new_nf,
                s4.new_vf,
                d.src_reg_id,
                d.dst_reg_id,
                w,
                d.opcode,
                d.src_addr_mode,
                d.dst_addr_mode,
                s4.result,
                s2.mem_read_addr_0,
                s3.mem_read_addr_1,
                s4.new_pc_val,
                s2.used_instr_word_for_src,
                s3.used_instr_word_for_dst,
            );
            Some(
                (
                    if addr != 0 {
                        write_word(mem, addr, s4.result)
                    } else {
                        mem
                    },
                    new_regs,
                ),
            )
        },
    }
}

/// Up to `n` instructions, stopping at the first fault: the memory and
/// registers reached, and whether a fault stopped the run.
pub open spec fn run(mem: Seq<u8>, regs: Seq<u16>, n: nat) -> (Seq<u8>, Seq<u16>, bool)
    decreases n,
{
    if n == 0 {
        (mem, regs, false)
    } else {
        let (m, r, faulted) = run(mem, regs, (n - 1) as nat);
        if faulted {
            (m, r, true)
        } else {
            match step(m, r) {
                None => (m, r, true),
                Some((m2, r2)) => (m2, r2, false),
            }
        }
    }
}

proof fn lemma_run_fault_persists(mem: Seq<u8>, regs: Seq<u16>, i: nat, n: nat)
    requires
        i <= n,
        run(mem, regs, i).2,
    ensures
        run(mem, regs, n) == run(mem, regs, i),
    decreases n - i,
{
    if i < n {
        lemma_run_fault_persists(mem, regs, i, (n - 1) as nat);
    }
}

impl Emulator {
    pub open spec fn wf(&self) -> bool {
        self.mem@.len() == MEM_SIZE && self.regs@.len() == 16
    }

    /// A machine whose memory starts with `instrs` and is zero after it, with
    /// every register zero.
    pub fn new(instrs: &Vec<u8>) -> (r: Self)
        requires
            instrs@.len() <= MEM_SIZE,
        ensures
            r.wf(),
            !r.halted,
            r.mem@ == instrs@ + Seq::new((MEM_SIZE - instrs@.len()) as nat, |i: int| 0u8),
            r.regs@ == Seq::new(16, |i: int| 0u16),
    {
        let mut mem: Vec<u8> = vec![0u8; MEM_SIZE];
        let mut i: usize = 0;
        while i < instrs.len()
            invariant
                instrs@.len() <= MEM_SIZE,
                i <= instrs@.len(),
                mem@.len() == MEM_SIZE,
                forall|k: int| 0 <= k < i ==> mem@[k] == instrs@[k],
                forall|k: int| i <= k < MEM_SIZE ==> mem@[k] == 0u8,
            decreases instrs@.len() - i,
        {
            mem.set(i, instrs[i]);
            i += 1;
        }
        let regs: Vec<u16> = vec![0u16; 16];
        assert(mem@ =~= instrs@ + Seq::new((MEM_SIZE - instrs@.len()) as nat, |i: int| 0u8));
        assert(regs@ =~= Seq::new(16, |i: int| 0u16));
        Emulator { mem, regs, halted: false }
    }

    /// The graphics framebuffer.
    pub fn get_gfx_buffer(&self) -> (r: &[u8])
        requires
            self.wf(),
        ensures
            r@ == self.mem@.subrange(GFX_START as int, GFX_END as int),
    {
        vstd::slice::slice_subrange(self.mem.as_slice(), GFX_START, GFX_END)
    }

    /// The LED-output word.
    pub fn get_led_output(&self) -> (r: u16)
        requires
            self.wf(),
        ensures
            r == word_at(self.mem@, LED_ADDR),
    {
        let low = self.mem[LED_ADDR as usize] as u16;
        let high = self.mem[LED_ADDR as usize + 1] as u16;
        low + high * 256
    }

    /// Stores the switch-input word.
    pub fn set_switch_states(&mut self, new_states: u16)
        requires
            old(self).wf(),
        ensures
            final(self).wf(),
            final(self).mem@ == write_word(old(self).mem@, SWITCH_ADDR, new_states),
            final(self).regs == old(self).regs,
            final(self).halted == old(self).halted,
    {
        self.mem.set(SWITCH_ADDR as usize, (new_states % 256) as u8);
        self.mem.set(SWITCH_ADDR as usize + 1, (new_states / 256) as u8);
    }

    /// Stores the button-input byte.
    pub fn set_button_states(&mut self, new_states: u8)
        requires
            old(self).wf(),
        ensures
            final(self).wf(),
            final(self).mem@ == old(self).mem@.update(BUTTON_ADDR as int, new_states),
            final(self).regs == old(self).regs,
            final(self).halted == old(self).halted,
    {
        self.mem.set(BUTTON_ADDR, new_states);
    }

    /// Runs one instruction through the six stages. A fault commits nothing
    /// and halts the emulator; a halted emulator does nothing.
    pub fn run_one_instr(&mut self) -> (r: Result<(), ExecError>)
        requires
            old(self).wf(),
        ensures
            final(self).wf(),
            old(self).halted ==> r == Err::<(), ExecError>(ExecError::Halted) && final(self).mem
                == old(self).mem && final(self).regs == old(self).regs && final(self).halted,
            !old(self).halted ==> match step(old(self).mem@, old(self).regs@) {
                Some((m, g)) => r is Ok && final(self).mem@ == m && final(self).regs@ == g
                    && !final(self).halted,
                None => {
                    &&& r == Err::<(), ExecError>(ExecError::UnsupportedOpcode)
                    &&& final(self).mem == old(self).mem
                    &&& final(self).regs == old(self).regs
                    &&& final(self).halted
                },
            },
    {
        if self.halted {
            return Err(ExecError::Halted);
        }
        proof {
            reveal(step);
        }
        let s0 = exec_stage_0(self.mem.as_slice(), self.regs[0]);
        let s1 = exec_stage_1(s0.curr_instr);
        let s2a = exec_stage_2a(
            s0.curr_instr,
            s0.next_word,
            s1.src_addr_mode,
            s1.src_reg_id,
            self.regs.as_slice(),
        );
        let s2b = exec_stage_2b(
            s0.curr_instr,
            s1.src_addr_mode,
            s1.src_reg_id,
            s2a.mem_read_addr_0,
            self.mem.as_slice(),
            self.regs.as_slice(),
        );
        let s3a = exec_stage_3a(
            s0.curr_instr,
            s0.next_word,
            s0.next_next_word,
            s2a.used_instr_word_for_src,
            s1.dst_addr_mode,
            s1.dst_reg_id,
            self.regs.as_slice(),
        );
        let s3b = exec_stage_3b(
            s1.dst_reg_id,
            s3a.mem_read_addr_1,
            self.mem.as_slice(),
            self.regs.as_slice(),
        );
        let s4 = match exec_stage_4(
            s0.curr_instr,
            s1.opcode,
            s2b.operand_0,
            s3b.operand_1,
            self.regs.as_slice(),
        ) {
            Ok(s) => s,
            Err(e) => {
                self.halted = true;
                return Err(e);
            },
        };
        let mut regs: Vec<u16> = Vec::new();
        core::mem::swap(&mut regs, &mut self.regs);
        let s5 = exec_stage_5a(
            regs,
            s2a.inc_src_reg,
            s4.dec_sp,
            s4.new_cf,
            s4.new_zf,
            s4.new_nf,
            s4.new_vf,
            s1.src_reg_id,
            s1.dst_reg_id,
            s0.curr_instr,
            s1.opcode,
            s1.src_addr_mode,
            s1.dst_addr_mode,
            s4.result,
            s2a.mem_read_addr_0,
            s3a.mem_read_addr_1,
            s4.new_pc_val,
            s2a.used_instr_word_for_src,
            s3a.used_instr_word_for_dst,
        );
        self.regs = s5.regs;
        exec_stage_5b(s5.mem_write_addr, s4.result, &mut self.mem);
        Ok(())
    }

    /// Runs a batch of twenty instructions, stopping at the first fault.
    pub fn run_some_instrs(&mut self) -> (r: Result<(), ExecError>)
        requires
            old(self).wf(),
        ensures
            final(self).wf(),
            old(self).halted ==> r == Err::<(), ExecError>(ExecError::Halted) && final(self).mem
                == old(self).mem && final(self).regs == old(self).regs && final(self).halted,
            !old(self).halted ==> (final(self).mem@, final(self).regs@, final(self).halted)
                == run(old(self).mem@, old(self).regs@, 20),
            !old(self).halted ==> (r is Ok <==> !final(self).halted),
            !old(self).halted && r is Err ==> r == Err::<(), ExecError>(
                ExecError::UnsupportedOpcode,
            ),
    {
        if self.halted {
            return Err(ExecError::Halted);
        }
        let ghost mem0 = self.mem@;
        let ghost regs0 = self.regs@;
        let mut i: usize = 0;
        while i < 20
            invariant
                self.wf(),
                i <= 20,
                !self.halted,
                !old(self).halted,
                mem0 == old(self).mem@,
                regs0 == old(self).regs@,
                (self.mem@, self.regs@, false) == run(mem0, regs0, i as nat),
            decreases 20 - i,
        {
            match self.run_one_instr() {
                Ok(()) => {},
                Err(e) => {
                    proof {
                        lemma_run_fault_persists(mem0, regs0, (i + 1) as nat, 20);
                    }
                    return Err(e);
                },
            }
            i += 1;
        }
        Ok(())
    }
}

} // verus!
