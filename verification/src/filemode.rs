//! Permission bits of a file mode word, and their rendering as the
//! character string used by long directory listings.

use vstd::prelude::*;

verus! {

/// Stores the file mode obtained from `fs::mode()` or `fs::st_mode()`.
pub struct FileMode(pub u32);

/// The ten mode characters of a long listing, in the order
/// user write/read/execute, group write/read/execute, other
/// write/read/execute, sticky.  The execute slots show `s` when the
/// corresponding set-id bit is on, and the sticky slot shows `t` or `.`.
pub open spec fn mode_chars(m: u32) -> Seq<char> {
    seq![
        if m & 0o200 != 0 { 'w' } else { '-' },
        if m & 0o400 != 0 { 'r' } else { '-' },
        if m & 0o4000 != 0 { 's' } else if m & 0o100 != 0 { 'x' } else { '-' },
        if m & 0o20 != 0 { 'w' } else { '-' },
        if m & 0o40 != 0 { 'r' } else { '-' },
        if m & 0o2000 != 0 { 's' } else if m & 0o10 != 0 { 'x' } else { '-' },
        if m & 0o2 != 0 { 'w' } else { '-' },
        if m & 0o4 != 0 { 'r' } else { '-' },
        if m & 0o1 != 0 { 'x' } else { '-' },
        if m & 0o1000 != 0 { 't' } else { '.' },
    ]
}

impl FileMode {
    pub fn user_execute(&self) -> (r: bool)
        ensures
            r == (self.0 & 0o100 != 0),
    {
        self.0 & 0o100 != 0
    }

    pub fn user_write(&self) -> (r: bool)
        ensures
            r == (self.0 & 0o200 != 0),
    {
        self.0 & 0o200 != 0
    }

    pub fn user_read(&self) -> (r: bool)
        ensures
            r == (self.0 & 0o400 != 0),
    {
        self.0 & 0o400 != 0
    }

    pub fn group_execute(&self) -> (r: bool)
        ensures
            r == (self.0 & 0o10 != 0),
    {
        self.0 & 0o10 != 0
    }

    pub fn group_write(&self) -> (r: bool)
        ensures
            r == (self.0 & 0o20 != 0),
    {
        self.0 & 0o20 != 0
    }

    pub fn group_read(&self) -> (r: bool)
        ensures
            r == (self.0 & 0o40 != 0),
    {
        self.0 & 0o40 != 0
    }

    pub fn other_execute(&self) -> (r: bool)
        ensures
            r == (self.0 & 0o1 != 0),
    {
        self.0 & 0o1 != 0
    }

    pub fn other_write(&self) -> (r: bool)
        ensures
            r == (self.0 & 0o2 != 0),
    {
        self.0 & 0o2 != 0
    }

    pub fn other_read(&self) -> (r: bool)
        ensures
            r == (self.0 & 0o4 != 0),
    {
        self.0 & 0o4 != 0
    }

    pub fn sticky_bit(&self) -> (r: bool)
        ensures
            r == (self.0 & 0o1000 != 0),
    {
        self.0 & 0o1000 != 0
    }

    pub fn sgid_bit(&self) -> (r: bool)
        ensures
            r == (self.0 & 0o2000 != 0),
    {
        self.0 & 0o2000 != 0
    }

    pub fn suid_bit(&self) -> (r: bool)
        ensures
            r == (self.0 & 0o4000 != 0),
    {
        self.0 & 0o4000 != 0
    }

    /// Renders the mode using ls character symbols.  This rendering does not
    /// fully replicate ls output because it will never output `S` for the
    /// setuid or setgid bits.
    #[verifier::rlimit(30)]
    pub fn mode_string(&self) -> (r: String)
        ensures
            r@ == mode_chars(self.0),
    {
        proof {
            reveal_strlit("w");
            reveal_strlit("r");
            reveal_strlit("x");
            reveal_strlit("s");
            reveal_strlit("t");
            reveal_strlit(".");
            reveal_strlit("-");
        }
        let mut s = String::new();
        s.append(if self.user_write() { "w" } else { "-" });
        s.append(if self.user_read() { "r" } else { "-" });
        s.append(
            if self.suid_bit() {
                "s"
            } else if self.user_execute() {
                "x"
            } else {
                "-"
            },
        );
        s.append(if self.group_write() { "w" } else { "-" });
        s.append(if self.group_read() { "r" } else { "-" });
        s.append(
            if self.sgid_bit() {
                "s"
            } else if self.group_execute() {
                "x"
            } else {
                "-"
            },
        );
        s.append(if self.other_write() { "w" } else { "-" });
        s.append(if self.other_read() { "r" } else { "-" });
        s.append(if self.other_execute() { "x" } else { "-" });
        s.append(if self.sticky_bit() { "t" } else { "." });
        proof {
            assert(s@ =~= mode_chars(self.0));
        }
        s
    }
}

} // verus!
