//! Core of a runner for Windows x86 programs: a PE loader, an x86 CPU with
//! its memory, a translator from x86 to ARM instructions, and the Windows
//! API calls those programs make.
use vstd::prelude::*;

pub mod cpu;
pub mod dxvk;
pub mod graphics;
pub mod memory;
pub mod pe;
pub mod power;
pub mod runtime;
pub mod syscall;
pub mod translator;

use crate::cpu::{fetched, reset_registers, spec_fetch, CpuError, X86Registers, CPU};
use crate::syscall::is_text;
use crate::memory::{MemoryError, MemoryManager};
use crate::pe::{image_loaded, load_panics, parsed_pe, pe_error, PEFile, PELoader, PeError};
use crate::translator::{translate_outcome, BinaryTranslator, TranslateError};

verus! {

/// Why the engine stopped.
#[derive(Debug, Clone, Copy, PartialEq, Eq, Structural)]
pub enum EngineError {
    /// Emulated memory could not be set up.
    Memory(MemoryError),
    /// Fetching or decoding an instruction failed.
    Cpu(CpuError),
    /// An instruction could not be translated.
    Translate(TranslateError),
    /// The program could not be loaded.
    Pe(PeError),
}

/// The registers after the register called `name` (upper case: "EAX" ..
/// "ESP", "EIP", "EFLAGS") is set to `value`; `None` for other names.
pub open spec fn with_named_register(regs: X86Registers, name: Seq<char>, value: u32) -> Option<
    X86Registers,
> {
    if name == "EAX"@ {
        Some(X86Registers { eax: value, ..regs })
    } else if name == "EBX"@ {
        Some(X86Registers { ebx: value, ..regs })
    } else if name == "ECX"@ {
        Some(X86Registers { ecx: value, ..regs })
    } else if name == "EDX"@ {
        Some(X86Registers { edx: value, ..regs })
    } else if name == "ESI"@ {
        Some(X86Registers { esi: value, ..regs })
    } else if name == "EDI"@ {
        Some(X86Registers { edi: value, ..regs })
    } else if name == "EBP"@ {
        Some(X86Registers { ebp: value, ..regs })
    } else if name == "ESP"@ {
        Some(X86Registers { esp: value, ..regs })
    } else if name == "EIP"@ {
        Some(X86Registers { eip: value, ..regs })
    } else if name == "EFLAGS"@ {
        Some(X86Registers { eflags: value, ..regs })
    } else {
        None
    }
}

/// `new` and `r` are what one step from `old` gives: the instruction at the
/// instruction pointer is fetched (see `fetched`) and then translated; a
/// failed fetch leaves the translator as it was.
pub open spec fn stepped(old: &EmulationEngine, new: &EmulationEngine, r: Result<(), EngineError>) -> bool {
    &&& fetched(&old.cpu, &new.cpu)
    &&& match spec_fetch(&old.cpu) {
        Err(e) => r == Err::<(), EngineError>(EngineError::Cpu(e)) && new.translator == old.translator,
        Ok(inst) => {
            let (t, cache) = translate_outcome(old.translator.cache_view(), inst);
            &&& new.translator.wf()
            &&& new.translator.cache_view() == cache
            &&& match t {
                Ok(_) => r is Ok,
                Err(e) => r == Err::<(), EngineError>(EngineError::Translate(e)),
            }
        },
    }
}

/// `new` and `r` are what running from `old` gives: steps are taken one
/// after the other until one fails, and its error is the answer.
pub open spec fn ran(old: &EmulationEngine, new: &EmulationEngine, r: Result<(), EngineError>) -> bool
    decreases u32::MAX - old.cpu.registers.eip,
{
    exists|mid: EmulationEngine, r1: Result<(), EngineError>|
        {
            &&& #[trigger] stepped(old, &mid, r1)
            &&& if r1 is Err {
                r == r1 && *new == mid
            } else {
                old.cpu.registers.eip < mid.cpu.registers.eip <= u32::MAX && ran(&mid, new, r)
            }
        }
}

/// `new` and `r` are what taking up to `n` steps from `old` gives: steps
/// are taken one after the other, stopping at the first that fails.
pub open spec fn ran_steps(old: &EmulationEngine, new: &EmulationEngine, n: nat, r: Result<(), EngineError>) -> bool
    decreases n,
{
    if n == 0 {
        r is Ok && *new == *old
    } else {
        exists|mid: EmulationEngine, r1: Result<(), EngineError>|
            {
                &&& #[trigger] stepped(old, &mid, r1)
                &&& if r1 is Err {
                    r == r1 && *new == mid
                } else {
                    ran_steps(&mid, new, (n - 1) as nat, r)
                }
            }
    }
}

/// The upper-case form of a text, as `str::to_uppercase` gives it.
pub uninterp spec fn uppercase_of(s: Seq<char>) -> Seq<char>;

/// `str::to_uppercase`: the upper-case mapping of every character, by the
/// Unicode tables. Its result is named `uppercase_of` of the text's
/// characters; what that mapping is, is not stated here.
#[verifier::external_body]
fn to_uppercase(s: &str) -> (r: String)
    ensures
        r@ == uppercase_of(s@),
{
    s.to_uppercase()
}

/// What a bounded run did: how many instructions it stepped through and
/// where the instruction pointer stopped.
#[derive(Debug, Clone, Copy, PartialEq, Eq, Structural)]
pub struct ExecutionStats {
    pub instructions_executed: u64,
    pub last_instruction_pointer: u32,
}

/// Main emulation engine that coordinates all components
pub struct EmulationEngine {
    pub cpu: CPU,
    pub translator: BinaryTranslator,
}

impl EmulationEngine {
    /// The CPU (with its memory) and the translator are well formed.
    pub open spec fn wf(&self) -> bool {
        self.cpu.wf() && self.translator.wf()
    }

    /// Creates a new emulation engine instance
    pub fn new() -> (r: Result<Self, EngineError>)
        ensures
            r matches Ok(e) && e.wf() && e.cpu.registers == reset_registers()
                && e.cpu.memory.has_standard_layout() && e.cpu.cache().is_empty()
                && e.translator.cache_view().is_empty(),
    {
        let memory = match MemoryManager::new() {
            Ok(m) => m,
            Err(e) => return Err(EngineError::Memory(e)),
        };
        let cpu = match CPU::new(memory) {
            Ok(c) => c,
            Err(e) => return Err(EngineError::Cpu(e)),
        };
        let translator = match BinaryTranslator::new() {
            Ok(t) => t,
            Err(e) => return Err(EngineError::Translate(e)),
        };
        Ok(EmulationEngine { cpu, translator })
    }

    /// Loads the PE image `pe_data` (named `module_name`) and runs it from
    /// its entry point until an instruction cannot be fetched or
    /// translated.
    pub fn execute_pe(&mut self, pe_data: &[u8], module_name: String) -> (r: Result<(), EngineError>)
        requires
            old(self).wf(),
            !load_panics(pe_data@),
        ensures
            final(self).wf(),
            r is Err,
            pe_error(pe_data@) matches Some(e) ==> r == Err::<(), EngineError>(EngineError::Pe(e))
                && final(self).cpu == old(self).cpu && final(self).translator == old(self).translator,
            pe_error(pe_data@) is None ==> exists|pe: PEFile, loaded: EmulationEngine, lr: Result<u32, PeError>|
                {
                    &&& parsed_pe(pe_data@, pe)
                    &&& #[trigger] image_loaded(&old(self).cpu.memory, &loaded.cpu.memory, &pe, lr)
                    &&& loaded.wf()
                    &&& loaded.translator == old(self).translator
                    &&& loaded.cpu.cache() == old(self).cpu.cache()
                    &&& match lr {
                        Err(e) => {
                            &&& r == Err::<(), EngineError>(EngineError::Pe(e))
                            &&& loaded.cpu.registers == old(self).cpu.registers
                            &&& final(self).cpu.memory == loaded.cpu.memory
                            &&& final(self).cpu.registers == loaded.cpu.registers
                            &&& final(self).cpu.cache() == loaded.cpu.cache()
                            &&& final(self).translator == loaded.translator
                        },
                        Ok(entry) => {
                            &&& loaded.cpu.registers == (X86Registers {
                                eip: entry,
                                ..old(self).cpu.registers
                            })
                            &&& ran(&loaded, final(self), r)
                        },
                    }
                },
    {
        let ghost m0 = self.cpu.memory;
        let mut pe_loader = PELoader::new();
        let lr = pe_loader.load(pe_data, module_name, &mut self.cpu.memory);
        let ghost pe = choose|pe: PEFile|
            parsed_pe(pe_data@, pe) && #[trigger] image_loaded(&m0, &self.cpu.memory, &pe, lr);
        let entry_point = match lr {
            Ok(e) => e,
            Err(e) => {
                assert(pe_error(pe_data@) is None ==> image_loaded(&m0, &self.cpu.memory, &pe, lr));
                return Err(EngineError::Pe(e));
            },
        };
        // Set CPU to entry point and start execution
        self.cpu.set_instruction_pointer(entry_point);
        let ghost loaded = *self;
        assert(image_loaded(&m0, &loaded.cpu.memory, &pe, lr));
        let r = self.run();
        assert(ran(&loaded, self, r));
        r
    }

    /// One step of execution: fetches the instruction at the instruction
    /// pointer and translates it.
    pub fn step(&mut self) -> (r: Result<(), EngineError>)
        requires
            old(self).wf(),
        ensures
            final(self).wf(),
            stepped(old(self), final(self), r),
            final(self).cpu.registers.eip >= old(self).cpu.registers.eip,
            r is Ok ==> final(self).cpu.registers.eip > old(self).cpu.registers.eip,
    {
        let ghost eip = self.cpu.registers.eip;
        let instruction = match self.cpu.fetch_instruction() {
            Ok(i) => i,
            Err(e) => return Err(EngineError::Cpu(e)),
        };
        assert(self.cpu.cache().contains_key(eip));
        assert(old(self).cpu.cache().contains_key(eip) ==> old(self).cpu.cache()[eip]@.length >= 1
            && eip + old(self).cpu.cache()[eip]@.length <= u32::MAX);
        // Translate x86 instruction to ARM if needed
        let _translated = match self.translator.translate_instruction(instruction) {
            Ok(t) => t,
            Err(e) => return Err(EngineError::Translate(e)),
        };
        // Handle thermal throttling if needed
        self.check_thermal_state()
    }

    /// Main execution loop: steps until a step fails.
    pub fn run(&mut self) -> (r: Result<(), EngineError>)
        requires
            old(self).wf(),
        ensures
            final(self).wf(),
            r is Err,
            ran(old(self), final(self), r),
    {
        loop
            invariant
                self.wf(),
                forall|e_end: EmulationEngine, rr: Result<(), EngineError>|
                    #[trigger] ran(self, &e_end, rr) ==> ran(old(self), &e_end, rr),
            decreases u32::MAX - self.cpu.registers.eip,
        {
            let ghost pre = *self;
            let res = self.step();
            match res {
                Ok(()) => {},
                Err(e) => {
                    assert(stepped(&pre, self, res));
                    assert(ran(&pre, self, res));
                    return Err(e);
                },
            }
            proof {
                assert forall|e_end: EmulationEngine, rr: Result<(), EngineError>|
                    #[trigger] ran(self, &e_end, rr) implies ran(old(self), &e_end, rr) by {
                    assert(stepped(&pre, self, res));
                    assert(ran(&pre, &e_end, rr));
                }
            }
        }
    }

    /// Sets the register called `name`, in any case ("eax", "Eflags", ..), to
    /// `value`; answers whether there is such a register.
    pub fn set_cpu_register(&mut self, name: &str, value: u32) -> (r: bool)
        requires
            old(self).wf(),
        ensures
            final(self).wf(),
            final(self).translator == old(self).translator,
            final(self).cpu.memory == old(self).cpu.memory,
            final(self).cpu.cache() == old(self).cpu.cache(),
            match with_named_register(old(self).cpu.registers, uppercase_of(name@), value) {
                Some(regs) => r && final(self).cpu.registers == regs,
                None => !r && final(self).cpu.registers == old(self).cpu.registers,
            },
    {
        let upper = to_uppercase(name);
        self.set_upper_cpu_register(&upper, value)
    }

    /// Sets the register called `name`, already in upper case ("EAX" ..
    /// "ESP", "EIP", "EFLAGS"), to `value`; answers whether there is such a
    /// register.
    pub fn set_upper_cpu_register(&mut self, name: &String, value: u32) -> (r: bool)
        requires
            old(self).wf(),
        ensures
            final(self).wf(),
            final(self).translator == old(self).translator,
            final(self).cpu.memory == old(self).cpu.memory,
            final(self).cpu.cache() == old(self).cpu.cache(),
            match with_named_register(old(self).cpu.registers, name@, value) {
                Some(regs) => r && final(self).cpu.registers == regs,
                None => !r && final(self).cpu.registers == old(self).cpu.registers,
            },
    {
        let regs = &mut self.cpu.registers;
        if is_text(name, "EAX") {
            regs.eax = value;
        } else if is_text(name, "EBX") {
            regs.ebx = value;
        } else if is_text(name, "ECX") {
            regs.ecx = value;
        } else if is_text(name, "EDX") {
            regs.edx = value;
        } else if is_text(name, "ESI") {
            regs.esi = value;
        } else if is_text(name, "EDI") {
            regs.edi = value;
        } else if is_text(name, "EBP") {
            regs.ebp = value;
        } else if is_text(name, "ESP") {
            regs.esp = value;
        } else if is_text(name, "EIP") {
            regs.eip = value;
        } else if is_text(name, "EFLAGS") {
            regs.eflags = value;
        } else {
            return false;
        }
        true
    }

    /// Runs `budget` steps, stopping at the first step that fails.
    pub fn run_for(&mut self, budget: u32) -> (r: Result<ExecutionStats, EngineError>)
        requires
            old(self).wf(),
        ensures
            final(self).wf(),
            final(self).cpu.registers.eip >= old(self).cpu.registers.eip,
            r matches Ok(stats) ==> stats.instructions_executed == budget
                && stats.last_instruction_pointer == final(self).cpu.registers.eip
                && final(self).cpu.registers.eip >= old(self).cpu.registers.eip + budget,
            ran_steps(
                old(self),
                final(self),
                budget as nat,
                match r {
                    Ok(_) => Ok::<(), EngineError>(()),
                    Err(e) => Err::<(), EngineError>(e),
                },
            ),
    {
        let mut executed: u32 = 0;
        while executed < budget
            invariant
                self.wf(),
                executed <= budget,
                self.cpu.registers.eip >= old(self).cpu.registers.eip + executed,
                forall|e_end: EmulationEngine, rr: Result<(), EngineError>|
                    #[trigger] ran_steps(self, &e_end, (budget - executed) as nat, rr) ==> ran_steps(
                        old(self),
                        &e_end,
                        budget as nat,
                        rr,
                    ),
            decreases budget - executed,
        {
            let ghost pre = *self;
            let res = self.step();
            match res {
                Ok(()) => {},
                Err(e) => {
                    assert(stepped(&pre, self, res));
                    assert(ran_steps(&pre, self, (budget - executed) as nat, res));
                    return Err(e);
                },
            }
            proof {
                assert forall|e_end: EmulationEngine, rr: Result<(), EngineError>|
                    #[trigger] ran_steps(self, &e_end, (budget - (executed + 1)) as nat, rr)
                    implies ran_steps(old(self), &e_end, budget as nat, rr) by {
                    assert(stepped(&pre, self, res));
                    assert(ran_steps(&pre, &e_end, (budget - executed) as nat, rr));
                }
            }
            executed = executed + 1;
        }
        assert(ran_steps(self, self, (budget - executed) as nat, Ok::<(), EngineError>(())));
        Ok(
            ExecutionStats {
                instructions_executed: budget as u64,
                last_instruction_pointer: self.cpu.registers.eip,
            },
        )
    }

    /// Checks thermal state; nothing throttles execution here.
    fn check_thermal_state(&self) -> (r: Result<(), EngineError>)
        ensures
            r is Ok,
    {
        Ok(())
    }
}

} // verus!
