//! UNIX signals by name and by number.
use vstd::prelude::*;

verus! {

/// The UnixSignal enums represents the UNIX signals
#[derive(Copy, Clone, PartialEq, Eq, Debug, Structural)]
pub enum UnixSignal {
    Sighup,
    Sigint,
    Sigquit,
    Sigill,
    Sigtrap,
    Sigabrt,
    Sigbus,
    Sigfpe,
    Sigkill,
    Sigusr1,
    Sigsegv,
    Sigusr2,
    Sigpipe,
    Sigalrm,
    Sigterm,
    Sigstkflt,
    Sigchld,
    Sigcont,
    Sigstop,
    Sigtstp,
    Sigttin,
    Sigttou,
    Sigurg,
    Sigxcpu,
    Sigxfsz,
    Sigvtalrm,
    Sigprof,
    Sigwinch,
    Sigio,
    Sigpwr,
    Sigsys,
}

/// The signal with number `sig`, if there is one.
pub open spec fn signal_of(sig: u8) -> Option<UnixSignal> {
    match sig {
        1 => Some(UnixSignal::Sighup),
        2 => Some(UnixSignal::Sigint),
        3 => Some(UnixSignal::Sigquit),
        4 => Some(UnixSignal::Sigill),
        5 => Some(UnixSignal::Sigtrap),
        6 => Some(UnixSignal::Sigabrt),
        7 => Some(UnixSignal::Sigbus),
        8 => Some(UnixSignal::Sigfpe),
        9 => Some(UnixSignal::Sigkill),
        10 => Some(UnixSignal::Sigusr1),
        11 => Some(UnixSignal::Sigsegv),
        12 => Some(UnixSignal::Sigusr2),
        13 => Some(UnixSignal::Sigpipe),
        14 => Some(UnixSignal::Sigalrm),
        15 => Some(UnixSignal::Sigterm),
        16 => Some(UnixSignal::Sigstkflt),
        17 => Some(UnixSignal::Sigchld),
        18 => Some(UnixSignal::Sigcont),
        19 => Some(UnixSignal::Sigstop),
        20 => Some(UnixSignal::Sigtstp),
        21 => Some(UnixSignal::Sigttin),
        22 => Some(UnixSignal::Sigttou),
        23 => Some(UnixSignal::Sigurg),
        24 => Some(UnixSignal::Sigxcpu),
        25 => Some(UnixSignal::Sigxfsz),
        26 => Some(UnixSignal::Sigvtalrm),
        27 => Some(UnixSignal::Sigprof),
        28 => Some(UnixSignal::Sigwinch),
        29 => Some(UnixSignal::Sigio),
        30 => Some(UnixSignal::Sigpwr),
        31 => Some(UnixSignal::Sigsys),
        _ => None,
    }
}

/// The number of a signal (as on Linux).
pub open spec fn number_of(sig: UnixSignal) -> u8 {
    match sig {
        UnixSignal::Sighup => 1,
        UnixSignal::Sigint => 2,
        UnixSignal::Sigquit => 3,
        UnixSignal::Sigill => 4,
        UnixSignal::Sigtrap => 5,
        UnixSignal::Sigabrt => 6,
        UnixSignal::Sigbus => 7,
        UnixSignal::Sigfpe => 8,
        UnixSignal::Sigkill => 9,
        UnixSignal::Sigusr1 => 10,
        UnixSignal::Sigsegv => 11,
        UnixSignal::Sigusr2 => 12,
        UnixSignal::Sigpipe => 13,
        UnixSignal::Sigalrm => 14,
        UnixSignal::Sigterm => 15,
        UnixSignal::Sigstkflt => 16,
        UnixSignal::Sigchld => 17,
        UnixSignal::Sigcont => 18,
        UnixSignal::Sigstop => 19,
        UnixSignal::Sigtstp => 20,
        UnixSignal::Sigttin => 21,
        UnixSignal::Sigttou => 22,
        UnixSignal::Sigurg => 23,
        UnixSignal::Sigxcpu => 24,
        UnixSignal::Sigxfsz => 25,
        UnixSignal::Sigvtalrm => 26,
        UnixSignal::Sigprof => 27,
        UnixSignal::Sigwinch => 28,
        UnixSignal::Sigio => 29,
        UnixSignal::Sigpwr => 30,
        UnixSignal::Sigsys => 31,
    }
}

impl UnixSignal {
    /// Convert a u8 to a Unix Signal
    pub fn from_u8(sig: u8) -> (r: Option<UnixSignal>)
        ensures
            r == signal_of(sig),
    {
        match sig {
            1 => Some(UnixSignal::Sighup),
            2 => Some(UnixSignal::Sigint),
            3 => Some(UnixSignal::Sigquit),
            4 => Some(UnixSignal::Sigill),
            5 => Some(UnixSignal::Sigtrap),
            6 => Some(UnixSignal::Sigabrt),
            7 => Some(UnixSignal::Sigbus),
            8 => Some(UnixSignal::Sigfpe),
            9 => Some(UnixSignal::Sigkill),
            10 => Some(UnixSignal::Sigusr1),
            11 => Some(UnixSignal::Sigsegv),
            12 => Some(UnixSignal::Sigusr2),
            13 => Some(UnixSignal::Sigpipe),
            14 => Some(UnixSignal::Sigalrm),
            15 => Some(UnixSignal::Sigterm),
            16 => Some(UnixSignal::Sigstkflt),
            17 => Some(UnixSignal::Sigchld),
            18 => Some(UnixSignal::Sigcont),
            19 => Some(UnixSignal::Sigstop),
            20 => Some(UnixSignal::Sigtstp),
            21 => Some(UnixSignal::Sigttin),
            22 => Some(UnixSignal::Sigttou),
            23 => Some(UnixSignal::Sigurg),
            24 => Some(UnixSignal::Sigxcpu),
            25 => Some(UnixSignal::Sigxfsz),
            26 => Some(UnixSignal::Sigvtalrm),
            27 => Some(UnixSignal::Sigprof),
            28 => Some(UnixSignal::Sigwinch),
            29 => Some(UnixSignal::Sigio),
            30 => Some(UnixSignal::Sigpwr),
            31 => Some(UnixSignal::Sigsys),
            _ => None,
        }
    }

    /// The number of the signal, by which the operating system knows it.
    pub fn to_u8(&self) -> (n: u8)
        ensures
            n == number_of(*self),
    {
        match self {
            UnixSignal::Sighup => 1,
            UnixSignal::Sigint => 2,
            UnixSignal::Sigquit => 3,
            UnixSignal::Sigill => 4,
            UnixSignal::Sigtrap => 5,
            UnixSignal::Sigabrt => 6,
            UnixSignal::Sigbus => 7,
            UnixSignal::Sigfpe => 8,
            UnixSignal::Sigkill => 9,
            UnixSignal::Sigusr1 => 10,
            UnixSignal::Sigsegv => 11,
            UnixSignal::Sigusr2 => 12,
            UnixSignal::Sigpipe => 13,
            UnixSignal::Sigalrm => 14,
            UnixSignal::Sigterm => 15,
            UnixSignal::Sigstkflt => 16,
            UnixSignal::Sigchld => 17,
            UnixSignal::Sigcont => 18,
            UnixSignal::Sigstop => 19,
            UnixSignal::Sigtstp => 20,
            UnixSignal::Sigttin => 21,
            UnixSignal::Sigttou => 22,
            UnixSignal::Sigurg => 23,
            UnixSignal::Sigxcpu => 24,
            UnixSignal::Sigxfsz => 25,
            UnixSignal::Sigvtalrm => 26,
            UnixSignal::Sigprof => 27,
            UnixSignal::Sigwinch => 28,
            UnixSignal::Sigio => 29,
            UnixSignal::Sigpwr => 30,
            UnixSignal::Sigsys => 31,
        }
    }
}

/// Every signal is found again from its number.
pub proof fn law_signal_number_round_trip(sig: UnixSignal)
    ensures
        1 <= number_of(sig) <= 31,
        signal_of(number_of(sig)) == Some(sig),
{
}

/// A number names a signal exactly when it is between 1 and 31, and then
/// that signal has that number.
pub proof fn law_number_signal_round_trip(n: u8)
    ensures
        signal_of(n) is Some <==> 1 <= n <= 31,
        signal_of(n) matches Some(s) ==> number_of(s) == n,
{
}

} // verus!
