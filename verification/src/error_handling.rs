//! Error taxonomy and recovery policy.
//!
//! Any error on a single entry is recoverable: the entry is skipped, a
//! counter is incremented and the embedding may forward a formatted
//! message to a reporter. Only a root that cannot be opened fails a scan.

use vstd::prelude::*;

use crate::path::DirPath;

verus! {

/// Recommended next step when a recoverable error occurs.
#[derive(Clone, Copy, Debug, PartialEq, Eq, Structural)]
pub enum RecoveryAction {
    SkipEntry,
    SkipDirectory,
    Retry,
    Abort,
}

/// The flavours of I/O failure the recovery policy distinguishes.
#[derive(Clone, Copy, Debug, PartialEq, Eq, Structural)]
pub enum IoErrorKind {
    NotFound,
    PermissionDenied,
    Interrupted,
    WouldBlock,
    Other,
}

/// Typed scan errors; used for diagnostics and recovery hints.
#[derive(Debug)]
pub enum ScanError {
    IoError { path: DirPath, kind: IoErrorKind },
    PermissionDenied { path: DirPath },
    InvalidPath { path: DirPath },
    SystemCall { path: DirPath, call: String, errno: i32 },
}

/// The action the policy recommends for an error: transient conditions
/// retry, everything else skips the entry.
pub open spec fn spec_recovery_action(e: ScanError) -> RecoveryAction {
    match e {
        ScanError::PermissionDenied { .. } => RecoveryAction::SkipEntry,
        ScanError::InvalidPath { .. } => RecoveryAction::SkipEntry,
        ScanError::IoError { kind, .. } => match kind {
            IoErrorKind::NotFound => RecoveryAction::SkipEntry,
            IoErrorKind::PermissionDenied => RecoveryAction::SkipEntry,
            IoErrorKind::Interrupted => RecoveryAction::Retry,
            IoErrorKind::WouldBlock => RecoveryAction::Retry,
            IoErrorKind::Other => RecoveryAction::SkipEntry,
        },
        ScanError::SystemCall { errno, .. } => {
            if errno == 13 || errno == 1 {
                // EACCES, EPERM
                RecoveryAction::SkipEntry
            } else if errno == 2 || errno == 20 {
                // ENOENT, ENOTDIR
                RecoveryAction::SkipEntry
            } else if errno == 16 || errno == 11 {
                // EBUSY, EAGAIN
                RecoveryAction::Retry
            } else {
                RecoveryAction::SkipEntry
            }
        },
    }
}


/// The character of one decimal digit.
pub open spec fn digit_char(d: nat) -> char {
    if d == 0 {
        '0'
    } else if d == 1 {
        '1'
    } else if d == 2 {
        '2'
    } else if d == 3 {
        '3'
    } else if d == 4 {
        '4'
    } else if d == 5 {
        '5'
    } else if d == 6 {
        '6'
    } else if d == 7 {
        '7'
    } else if d == 8 {
        '8'
    } else {
        '9'
    }
}

/// The decimal rendering of a number, most significant digit first.
pub open spec fn dec_digits(n: nat) -> Seq<char>
    decreases n,
{
    if n < 10 {
        seq![digit_char(n)]
    } else {
        dec_digits(n / 10) + seq![digit_char(n % 10)]
    }
}

/// The decimal rendering of a signed number.
pub open spec fn dec_i32(n: int) -> Seq<char> {
    if n < 0 {
        seq!['-'] + dec_digits((-n) as nat)
    } else {
        dec_digits(n as nat)
    }
}

/// Append one number's decimal digits.
fn push_decimal(s: &mut String, n: u64)
    ensures
        final(s)@ == old(s)@ + dec_digits(n as nat),
    decreases n,
{
    if n >= 10 {
        push_decimal(s, n / 10);
    }
    let ghost mid = s@;
    let d = n % 10;
    if d == 0 {
        s.append("0");
    } else if d == 1 {
        s.append("1");
    } else if d == 2 {
        s.append("2");
    } else if d == 3 {
        s.append("3");
    } else if d == 4 {
        s.append("4");
    } else if d == 5 {
        s.append("5");
    } else if d == 6 {
        s.append("6");
    } else if d == 7 {
        s.append("7");
    } else if d == 8 {
        s.append("8");
    } else {
        s.append("9");
    }
    proof {
        reveal_strlit("0");
        reveal_strlit("1");
        reveal_strlit("2");
        reveal_strlit("3");
        reveal_strlit("4");
        reveal_strlit("5");
        reveal_strlit("6");
        reveal_strlit("7");
        reveal_strlit("8");
        reveal_strlit("9");
        assert(s@ =~= mid + seq![digit_char((n % 10) as nat)]);
        if n < 10 {
            assert(s@ =~= old(s)@ + dec_digits(n as nat));
        } else {
            assert(mid == old(s)@ + dec_digits((n / 10) as nat));
            assert(s@ =~= old(s)@ + dec_digits(n as nat));
        }
    }
}

/// Append one signed number's decimal digits.
fn push_decimal_i32(s: &mut String, n: i32)
    ensures
        final(s)@ == old(s)@ + dec_i32(n as int),
{
    if n < 0 {
        s.append("-");
        proof {
            reveal_strlit("-");
        }
        let m: u64 = (-(n as i64)) as u64;
        let ghost mid = s@;
        push_decimal(s, m);
        proof {
            assert(mid =~= old(s)@ + seq!['-']);
            assert(s@ =~= old(s)@ + dec_i32(n as int));
        }
    } else {
        push_decimal(s, n as u64);
    }
}

impl ScanError {
    /// The path the error is about.
    pub open spec fn spec_path(&self) -> Seq<Seq<char>> {
        match self {
            ScanError::IoError { path, .. } => path@,
            ScanError::PermissionDenied { path } => path@,
            ScanError::InvalidPath { path } => path@,
            ScanError::SystemCall { path, .. } => path@,
        }
    }

    /// Every classified error is recoverable: the recommended action is
    /// never to abort.
    pub fn is_recoverable(&self) -> (r: bool)
        ensures
            r == (spec_recovery_action(*self) != RecoveryAction::Abort),
            r,
    {
        match self.recovery_action() {
            RecoveryAction::SkipEntry => true,
            RecoveryAction::SkipDirectory => true,
            RecoveryAction::Retry => true,
            RecoveryAction::Abort => false,
        }
    }

    /// The recommended next step for this error.
    pub fn recovery_action(&self) -> (r: RecoveryAction)
        ensures
            r == spec_recovery_action(*self),
    {
        match self {
            ScanError::PermissionDenied { .. } => RecoveryAction::SkipEntry,
            ScanError::InvalidPath { .. } => RecoveryAction::SkipEntry,
            ScanError::IoError { kind, .. } => match kind {
                IoErrorKind::NotFound => RecoveryAction::SkipEntry,
                IoErrorKind::PermissionDenied => RecoveryAction::SkipEntry,
                IoErrorKind::Interrupted => RecoveryAction::Retry,
                IoErrorKind::WouldBlock => RecoveryAction::Retry,
                IoErrorKind::Other => RecoveryAction::SkipEntry,
            },
            ScanError::SystemCall { errno, .. } => {
                let e = *errno;
                if e == 13 || e == 1 {
                    RecoveryAction::SkipEntry
                } else if e == 2 || e == 20 {
                    RecoveryAction::SkipEntry
                } else if e == 16 || e == 11 {
                    RecoveryAction::Retry
                } else {
                    RecoveryAction::SkipEntry
                }
            },
        }
    }

    /// What this error renders as after the path and separator.
    pub open spec fn spec_description(&self) -> Seq<char> {
        match self {
            ScanError::IoError { .. } => "i/o error"@,
            ScanError::PermissionDenied { .. } => "permission denied"@,
            ScanError::InvalidPath { .. } => "invalid path"@,
            ScanError::SystemCall { call, errno, .. } => call@ + " failed (errno="@ + dec_i32(
                *errno as int,
            ) + ")"@,
        }
    }

    /// A diagnostic line: the path string, a separator, and the failure
    /// description, the failing call's error number included.
    pub fn message(&self) -> (r: String)
        ensures
            r@ == crate::path::join_path(self.spec_path()) + ": "@ + self.spec_description(),
    {
        let mut s: String;
        match self {
            ScanError::IoError { path, .. } => {
                s = path.to_path_string();
                s.append(": ");
                s.append("i/o error");
            },
            ScanError::PermissionDenied { path } => {
                s = path.to_path_string();
                s.append(": ");
                s.append("permission denied");
            },
            ScanError::InvalidPath { path } => {
                s = path.to_path_string();
                s.append(": ");
                s.append("invalid path");
            },
            ScanError::SystemCall { path, call, errno } => {
                s = path.to_path_string();
                s.append(": ");
                s.append(call.as_str());
                s.append(" failed (errno=");
                push_decimal_i32(&mut s, *errno);
                s.append(")");
                proof {
                    assert(s@ =~= crate::path::join_path(self.spec_path()) + ": "@
                        + self.spec_description());
                }
            },
        }
        s
    }
}

/// The recovery interface the scan offers its callers.
pub trait ErrorRecovery {
    fn is_recoverable(&self) -> bool;

    fn recovery_action(&self) -> RecoveryAction;
}

impl ErrorRecovery for ScanError {
    fn is_recoverable(&self) -> bool {
        ScanError::is_recoverable(self)
    }

    fn recovery_action(&self) -> RecoveryAction {
        ScanError::recovery_action(self)
    }
}

/// Bump the error counter and render the error for the reporter; the
/// embedding forwards the line to its callback.
pub fn record_error(error_count: &mut u64, err: &ScanError) -> (msg: String)
    ensures
        *final(error_count) == old(error_count).saturating_add(1),
        msg@ == crate::path::join_path(err.spec_path()) + ": "@ + err.spec_description(),
{
    *error_count = error_count.saturating_add(1);
    err.message()
}

/// Relies on std::io::Error::last_os_error and raw_os_error: the
/// thread's last OS error code, an ambient value of which nothing more
/// is promised.
#[verifier::external_body]
fn last_os_errno() -> (r: i32)
{
    std::io::Error::last_os_error().raw_os_error().unwrap_or(-1)
}

/// Build a system-call error from the calling thread's last OS error.
pub fn last_os_error_systemcall(path: &DirPath, call: &str) -> (r: ScanError)
    ensures
        r matches ScanError::SystemCall { path: p, call: c, errno: _ } && p@ == path@ && c@
            == call@,
{
    let errno = last_os_errno();
    ScanError::SystemCall { path: path.dup(), call: String::from_str(call), errno }
}

} // verus!
