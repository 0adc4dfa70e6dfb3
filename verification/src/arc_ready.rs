//! Deciding, from the ARC scratch and post-code registers, whether the ARC
//! firmware can safely take a message.
use vstd::prelude::*;

verus! {

/// Why the ARC firmware cannot take a message now.
#[derive(Clone, Copy, Debug, PartialEq, Eq, Structural)]
pub enum ArcReadyError {
    /// The registers read back all ones: the chip is not reachable.
    NoAccess,
    /// The firmware failed to boot.
    BootError,
    /// The firmware watchdog fired.
    WatchdogTriggered,
    /// The firmware is still booting.
    BootIncomplete,
    /// The firmware is asleep.
    Asleep,
    /// A PCIe DMA transfer is still outstanding.
    OutstandingPcieDMA,
    /// A message with this id is queued but not yet handled.
    MessageQueued(u32),
    /// A message with this id is being handled.
    HandlingMessage(u32),
    /// Old firmware reports this post code, which is not idle.
    OldPostCode(u32),
}

/// A short description of why the firmware cannot take a message.
pub open spec fn arc_ready_text(e: ArcReadyError) -> Seq<char> {
    match e {
        ArcReadyError::NoAccess => "ARC registers read back all ones"@,
        ArcReadyError::BootError => "ARC firmware failed to boot"@,
        ArcReadyError::WatchdogTriggered => "ARC watchdog triggered"@,
        ArcReadyError::BootIncomplete => "ARC boot is not complete"@,
        ArcReadyError::Asleep => "ARC is asleep"@,
        ArcReadyError::OutstandingPcieDMA => "a PCIe DMA transfer is outstanding"@,
        ArcReadyError::MessageQueued(_) => "a message is queued"@,
        ArcReadyError::HandlingMessage(_) => "a message is being handled"@,
        ArcReadyError::OldPostCode(_) => "old firmware reports a busy post code"@,
    }
}

impl ArcReadyError {
    /// A short description of the reason.
    pub fn describe(&self) -> (r: &'static str)
        ensures
            r@ == arc_ready_text(*self),
    {
        match self {
            ArcReadyError::NoAccess => "ARC registers read back all ones",
            ArcReadyError::BootError => "ARC firmware failed to boot",
            ArcReadyError::WatchdogTriggered => "ARC watchdog triggered",
            ArcReadyError::BootIncomplete => "ARC boot is not complete",
            ArcReadyError::Asleep => "ARC is asleep",
            ArcReadyError::OutstandingPcieDMA => "a PCIe DMA transfer is outstanding",
            ArcReadyError::MessageQueued(_) => "a message is queued",
            ArcReadyError::HandlingMessage(_) => "a message is being handled",
            ArcReadyError::OldPostCode(_) => "old firmware reports a busy post code",
        }
    }
}

/// Post code of firmware that has finished initializing.
pub const POST_CODE_INIT_DONE: u32 = 0xC0DE0001;

/// First post code of the idle range after a message has been handled.
pub const POST_CODE_ARC_MSG_HANDLE_DONE: u32 = 0xC0DE003F;

/// Last post code of that idle range.
pub const POST_CODE_ARC_TIME_LAST: u32 = 0xC0DE007F;

/// Whether post code `pc` of old firmware means it is idle.  Wormhole
/// firmware is also idle in the range after handling a message.
pub open spec fn idle_post_code(pc: u32, wormhole: bool) -> bool {
    pc == POST_CODE_INIT_DONE || (wormhole && POST_CODE_ARC_MSG_HANDLE_DONE <= pc
        <= POST_CODE_ARC_TIME_LAST)
}

/// Whether the firmware can take a message, given the message register `s5`,
/// the post code `pc` and the PCIe DMA trigger register `dma`; the cases are
/// tried in this order.
pub open spec fn arc_ready_spec(s5: u32, pc: u32, dma: u32, wormhole: bool) -> Result<(), ArcReadyError> {
    if pc == 0xFFFFFFFF {
        Err(ArcReadyError::NoAccess)
    } else if s5 == 0xDEADC0DE {
        Err(ArcReadyError::WatchdogTriggered)
    } else if s5 == 0x60 || pc == 0x11110000 {
        Err(ArcReadyError::BootIncomplete)
    } else if s5 == 0xAA00 || s5 == 0xAA55 {
        Err(ArcReadyError::Asleep)
    } else if dma != 0 {
        Err(ArcReadyError::OutstandingPcieDMA)
    } else if s5 / 0x100 == 0xAA {
        Err(ArcReadyError::MessageQueued(s5 % 0x100))
    } else if s5 / 0x1000000 == 0xAA && s5 % 0x10000 == 0 {
        Err(ArcReadyError::HandlingMessage(s5 / 0x10000 % 0x100))
    } else if s5 == 1 || s5 == 0xFFFFFFFF || s5 == 0xFFFFDEAD {
        Ok(())
    } else if s5 % 0x10000 > 1 {
        Ok(())
    } else if s5 == 0 {
        if idle_post_code(pc, wormhole) {
            Ok(())
        } else {
            Err(ArcReadyError::OldPostCode(pc))
        }
    } else {
        Ok(())
    }
}

/// Decide whether the ARC firmware can take a message (see `arc_ready_spec`).
/// `wormhole` selects the Wormhole reading of an old post code; Grayskull
/// firmware is idle only at `POST_CODE_INIT_DONE`.
pub fn arc_ready(s5: u32, pc: u32, dma: u32, wormhole: bool) -> (r: Result<(), ArcReadyError>)
    ensures
        r == arc_ready_spec(s5, pc, dma, wormhole),
{
    if pc == 0xFFFFFFFF {
        return Err(ArcReadyError::NoAccess);
    }
    if s5 == 0xDEADC0DE {
        return Err(ArcReadyError::WatchdogTriggered);
    }
    // Still booting; it will later wipe the scratch register.
    if s5 == 0x00000060 || pc == 0x11110000 {
        return Err(ArcReadyError::BootIncomplete);
    }
    if s5 == 0x0000AA00 || s5 == 0xAA55 {
        return Err(ArcReadyError::Asleep);
    }
    // A PCIe DMA writes the scratch register on exit, so it is not safe;
    // firmware stuck in this state is taken to be hung.
    if dma != 0 {
        return Err(ArcReadyError::OutstandingPcieDMA);
    }
    // Message id in the low byte, above it 0xAA: queued.
    if s5 / 0x100 == 0xAA {
        return Err(ArcReadyError::MessageQueued(s5 % 0x100));
    }
    // 0xAA in the top byte, the id in the next, zero below: being handled.
    if s5 / 0x1000000 == 0xAA && s5 % 0x10000 == 0 {
        return Err(ArcReadyError::HandlingMessage(s5 / 0x10000 % 0x100));
    }
    // Boot complete (new firmware only), message not recognized, or a DMA
    // transfer failed to take the PCIe mutex.
    if s5 == 0x00000001 || s5 == 0xFFFFFFFF || s5 == 0xFFFFDEAD {
        return Ok(());
    }
    // A reply has been written; the post code will return to idle.
    if s5 % 0x10000 > 0x00000001 {
        return Ok(());
    }
    if s5 == 0 {
        // Not yet booted, or old firmware that finished booting or a message.
        let pc_idle = pc == POST_CODE_INIT_DONE || (wormhole && POST_CODE_ARC_MSG_HANDLE_DONE
            <= pc && pc <= POST_CODE_ARC_TIME_LAST);
        if pc_idle {
            return Ok(());
        } else {
            return Err(ArcReadyError::OldPostCode(pc));
        }
    }
    Ok(())
}

/// A message is never reported safe to send while another message is queued
/// in or being handled by the firmware's mailbox, or while the firmware is asleep.
pub proof fn lemma_busy_mailbox_not_ready(s5: u32, pc: u32, dma: u32, wormhole: bool)
    requires
        s5 / 0x100 == 0xAA || (s5 / 0x1000000 == 0xAA && s5 % 0x10000 == 0) || s5 == 0xAA55,
    ensures
        arc_ready_spec(s5, pc, dma, wormhole) is Err,
{
}

} // verus!
