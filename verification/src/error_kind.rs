use vstd::prelude::*;

use crate::text::same_text;

verus! {

/// The kinds of hardware error that the daemon watches the kernel log for.
#[derive(Clone, Copy, Debug, PartialEq, Eq, Structural)]
pub enum ErrorKind {
    /// A single-bit (corrected) memory error: `SBE ERR`.
    SingleBitError,
    /// An asynchronous system error: `SError detected`.
    SystemError,
    /// `CPU Memory Error`.
    CpuMemoryError,
    /// `Machine Check Error`.
    MachineCheckError,
    /// A fault in the GPU's level-two cache: `GPU L2`.
    GpuL2Error,
    /// `generated a mmu fault`.
    MmuFault,
    /// A flash write timeout: `SDHCI_INT_DATA_TIMEOUT`.
    FlashWriteTimeout,
    /// A flash read timeout: `Timeout waiting for hardware interrupt`.
    FlashReadTimeout,
    /// `watchdog detected`.
    WatchdogDetected,
}

/// How many kinds of error there are.
pub const KIND_COUNT: usize = 9;

impl ErrorKind {
    /// The text by which the kernel log names this kind of error.
    pub open spec fn spec_label(self) -> Seq<char> {
        match self {
            ErrorKind::SingleBitError => "SBE ERR"@,
            ErrorKind::SystemError => "SError detected"@,
            ErrorKind::CpuMemoryError => "CPU Memory Error"@,
            ErrorKind::MachineCheckError => "Machine Check Error"@,
            ErrorKind::GpuL2Error => "GPU L2"@,
            ErrorKind::MmuFault => "generated a mmu fault"@,
            ErrorKind::FlashWriteTimeout => "SDHCI_INT_DATA_TIMEOUT"@,
            ErrorKind::FlashReadTimeout => "Timeout waiting for hardware interrupt"@,
            ErrorKind::WatchdogDetected => "watchdog detected"@,
        }
    }

    /// The position of this kind among all kinds, in the order above.
    pub open spec fn spec_index(self) -> int {
        match self {
            ErrorKind::SingleBitError => 0,
            ErrorKind::SystemError => 1,
            ErrorKind::CpuMemoryError => 2,
            ErrorKind::MachineCheckError => 3,
            ErrorKind::GpuL2Error => 4,
            ErrorKind::MmuFault => 5,
            ErrorKind::FlashWriteTimeout => 6,
            ErrorKind::FlashReadTimeout => 7,
            ErrorKind::WatchdogDetected => 8,
        }
    }

    /// The kind at a position, the inverse of `spec_index`.
    pub open spec fn spec_at(i: int) -> ErrorKind {
        if i == 0 {
            ErrorKind::SingleBitError
        } else if i == 1 {
            ErrorKind::SystemError
        } else if i == 2 {
            ErrorKind::CpuMemoryError
        } else if i == 3 {
            ErrorKind::MachineCheckError
        } else if i == 4 {
            ErrorKind::GpuL2Error
        } else if i == 5 {
            ErrorKind::MmuFault
        } else if i == 6 {
            ErrorKind::FlashWriteTimeout
        } else if i == 7 {
            ErrorKind::FlashReadTimeout
        } else {
            ErrorKind::WatchdogDetected
        }
    }

    /// The text by which the kernel log names this kind of error.
    pub fn label(&self) -> (s: &'static str)
        ensures
            s@ == self.spec_label(),
    {
        match self {
            ErrorKind::SingleBitError => "SBE ERR",
            ErrorKind::SystemError => "SError detected",
            ErrorKind::CpuMemoryError => "CPU Memory Error",
            ErrorKind::MachineCheckError => "Machine Check Error",
            ErrorKind::GpuL2Error => "GPU L2",
            ErrorKind::MmuFault => "generated a mmu fault",
            ErrorKind::FlashWriteTimeout => "SDHCI_INT_DATA_TIMEOUT",
            ErrorKind::FlashReadTimeout => "Timeout waiting for hardware interrupt",
            ErrorKind::WatchdogDetected => "watchdog detected",
        }
    }

    /// The position of this kind among all kinds.
    pub fn index(&self) -> (i: usize)
        ensures
            i == self.spec_index(),
            i < KIND_COUNT,
    {
        match self {
            ErrorKind::SingleBitError => 0,
            ErrorKind::SystemError => 1,
            ErrorKind::CpuMemoryError => 2,
            ErrorKind::MachineCheckError => 3,
            ErrorKind::GpuL2Error => 4,
            ErrorKind::MmuFault => 5,
            ErrorKind::FlashWriteTimeout => 6,
            ErrorKind::FlashReadTimeout => 7,
            ErrorKind::WatchdogDetected => 8,
        }
    }

    /// The kind at position `i`.
    pub fn at(i: usize) -> (k: ErrorKind)
        requires
            i < KIND_COUNT,
        ensures
            k == ErrorKind::spec_at(i as int),
            k.spec_index() == i,
    {
        if i == 0 {
            ErrorKind::SingleBitError
        } else if i == 1 {
            ErrorKind::SystemError
        } else if i == 2 {
            ErrorKind::CpuMemoryError
        } else if i == 3 {
            ErrorKind::MachineCheckError
        } else if i == 4 {
            ErrorKind::GpuL2Error
        } else if i == 5 {
            ErrorKind::MmuFault
        } else if i == 6 {
            ErrorKind::FlashWriteTimeout
        } else if i == 7 {
            ErrorKind::FlashReadTimeout
        } else {
            ErrorKind::WatchdogDetected
        }
    }

    /// The first kind, from position `i` on, that the kernel log names by
    /// `label`.
    pub open spec fn named_from(label: Seq<char>, i: int) -> Option<ErrorKind>
        decreases 9 - i,
    {
        if i < 0 || i >= 9 {
            None
        } else if ErrorKind::spec_at(i).spec_label() == label {
            Some(ErrorKind::spec_at(i))
        } else {
            ErrorKind::named_from(label, i + 1)
        }
    }

    /// The kind that the kernel log names by `label`, if any.
    pub open spec fn named(label: Seq<char>) -> Option<ErrorKind> {
        ErrorKind::named_from(label, 0)
    }

    /// The kind that the kernel log names by `label`, if any.
    pub fn from_label(label: &str) -> (r: Option<ErrorKind>)
        ensures
            r == ErrorKind::named(label@),
            r matches Some(k) ==> k.spec_label() == label@,
            r is None ==> forall|k: ErrorKind| k.spec_label() != label@,
    {
        let mut i: usize = 0;
        while i < KIND_COUNT
            invariant
                i <= KIND_COUNT,
                forall|j: int| 0 <= j < i ==> ErrorKind::spec_at(j).spec_label() != label@,
                ErrorKind::named(label@) == ErrorKind::named_from(label@, i as int),
            decreases KIND_COUNT - i,
        {
            let k = ErrorKind::at(i);
            if same_text(k.label(), label) {
                return Some(k);
            }
            i = i + 1;
        }
        assert forall|k: ErrorKind| k.spec_label() != label@ by {
            assert(ErrorKind::spec_at(k.spec_index()) == k);
        }
        None
    }
}

/// Each kernel error text names the kind that the daemon files it under,
/// and each kind sits at its place in a report.
pub proof fn law_kernel_texts_name_their_kinds()
    ensures
        ErrorKind::named("SBE ERR"@) == Some(ErrorKind::SingleBitError),
        ErrorKind::named("SError detected"@) == Some(ErrorKind::SystemError),
        ErrorKind::named("CPU Memory Error"@) == Some(ErrorKind::CpuMemoryError),
        ErrorKind::named("Machine Check Error"@) == Some(ErrorKind::MachineCheckError),
        ErrorKind::named("GPU L2"@) == Some(ErrorKind::GpuL2Error),
        ErrorKind::named("generated a mmu fault"@) == Some(ErrorKind::MmuFault),
        ErrorKind::named("SDHCI_INT_DATA_TIMEOUT"@) == Some(ErrorKind::FlashWriteTimeout),
        ErrorKind::named("Timeout waiting for hardware interrupt"@) == Some(
            ErrorKind::FlashReadTimeout,
        ),
        ErrorKind::named("watchdog detected"@) == Some(ErrorKind::WatchdogDetected),
        ErrorKind::SingleBitError.spec_index() == 0,
        ErrorKind::SystemError.spec_index() == 1,
        ErrorKind::CpuMemoryError.spec_index() == 2,
        ErrorKind::MachineCheckError.spec_index() == 3,
        ErrorKind::GpuL2Error.spec_index() == 4,
        ErrorKind::MmuFault.spec_index() == 5,
        ErrorKind::FlashWriteTimeout.spec_index() == 6,
        ErrorKind::FlashReadTimeout.spec_index() == 7,
        ErrorKind::WatchdogDetected.spec_index() == 8,
{
    reveal_strlit("SBE ERR");
    reveal_strlit("SError detected");
    reveal_strlit("CPU Memory Error");
    reveal_strlit("Machine Check Error");
    reveal_strlit("GPU L2");
    reveal_strlit("generated a mmu fault");
    reveal_strlit("SDHCI_INT_DATA_TIMEOUT");
    reveal_strlit("Timeout waiting for hardware interrupt");
    reveal_strlit("watchdog detected");
    assert("SBE ERR"@.len() == 7);
    assert("SError detected"@.len() == 15);
    assert("CPU Memory Error"@.len() == 16);
    assert("Machine Check Error"@.len() == 19);
    assert("GPU L2"@.len() == 6);
    assert("generated a mmu fault"@.len() == 21);
    assert("SDHCI_INT_DATA_TIMEOUT"@.len() == 22);
    assert("Timeout waiting for hardware interrupt"@.len() == 38);
    assert("watchdog detected"@.len() == 17);
    reveal_with_fuel(ErrorKind::named_from, 10);
}

/// Every kind is named by its own text, and positions and kinds match one
/// to one.
pub proof fn law_kinds_and_positions(k: ErrorKind)
    ensures
        ErrorKind::named(k.spec_label()) == Some(k),
        0 <= k.spec_index() < 9,
        ErrorKind::spec_at(k.spec_index()) == k,
{
    law_kernel_texts_name_their_kinds();
}

} // verus!
