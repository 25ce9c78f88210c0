//! Derivation of a retention policy into the engine's forget/prune flags.
use vstd::prelude::*;
use crate::text::{decimal, push_decimal};

verus! {

#[derive(Debug, Clone, Copy)]
pub struct RetentionPolicy {
    pub enabled: bool,
    pub keep_last: u32,
    pub keep_daily: u32,
    pub keep_weekly: u32,
    pub keep_monthly: u32,
    pub keep_yearly: u32,
    /// Floor under `keep_last`, so that a misconfiguration cannot prune everything.
    pub min_snapshots: u32,
}

/// The flag and its value when `n` is non-zero; nothing otherwise.
pub open spec fn keep_pair(flag: Seq<char>, n: u32) -> Seq<Seq<char>> {
    if n > 0 {
        seq![flag, decimal(n as nat)]
    } else {
        seq![]
    }
}

pub open spec fn max_u32(a: u32, b: u32) -> u32 {
    if a >= b {
        a
    } else {
        b
    }
}

impl RetentionPolicy {
    /// The engine arguments this policy derives: nothing when disabled; otherwise
    /// always `--keep-last max(keep_last, min_snapshots)`, then each of the daily, weekly,
    /// monthly and yearly flags whose value is non-zero, in that order.
    pub open spec fn forget_args(self) -> Seq<Seq<char>> {
        if !self.enabled {
            seq![]
        } else {
            seq!["--keep-last"@, decimal(max_u32(self.keep_last, self.min_snapshots) as nat)]
                + keep_pair(
                "--keep-daily"@,
                self.keep_daily,
            ) + keep_pair("--keep-weekly"@, self.keep_weekly) + keep_pair(
                "--keep-monthly"@,
                self.keep_monthly,
            ) + keep_pair("--keep-yearly"@, self.keep_yearly)
        }
    }

    pub fn to_forget_args(&self) -> (r: Vec<String>)
        ensures
            r.deep_view() == self.forget_args(),
            !self.enabled ==> r.len() == 0,
            self.enabled ==> r.len() >= 2 && r@[0]@ == "--keep-last"@ && r@[1]@ == decimal(
                max_u32(self.keep_last, self.min_snapshots) as nat,
            ),
    {
        let mut args: Vec<String> = Vec::new();
        if !self.enabled {
            assert(args.deep_view() =~= self.forget_args());
            return args;
        }
        let keep_last = if self.keep_last >= self.min_snapshots {
            self.keep_last
        } else {
            self.min_snapshots
        };
        args.push(String::from_str("--keep-last"));
        let mut v = String::new();
        push_decimal(&mut v, keep_last as u64);
        assert(Seq::<char>::empty() + decimal(keep_last as nat) =~= decimal(keep_last as nat));
        args.push(v);
        push_keep(&mut args, "--keep-daily", self.keep_daily);
        push_keep(&mut args, "--keep-weekly", self.keep_weekly);
        push_keep(&mut args, "--keep-monthly", self.keep_monthly);
        push_keep(&mut args, "--keep-yearly", self.keep_yearly);
        assert(args.deep_view() =~= self.forget_args());
        assert(args.deep_view()[0] == args@[0]@ && args.deep_view()[1] == args@[1]@);
        args
    }
}

impl Default for RetentionPolicy {
    fn default() -> (r: Self)
        ensures
            !r.enabled,
            r.keep_last == 0 && r.keep_daily == 0 && r.keep_weekly == 0,
            r.keep_monthly == 0 && r.keep_yearly == 0,
            r.min_snapshots == 3,
    {
        RetentionPolicy {
            enabled: false,
            keep_last: 0,
            keep_daily: 0,
            keep_weekly: 0,
            keep_monthly: 0,
            keep_yearly: 0,
            min_snapshots: 3,
        }
    }
}

/// Appends `flag` and the decimal value of `n` when `n` is non-zero.
fn push_keep(args: &mut Vec<String>, flag: &str, n: u32)
    ensures
        final(args).deep_view() == old(args).deep_view() + keep_pair(flag@, n),
{
    let ghost before = args.deep_view();
    if n > 0 {
        args.push(String::from_str(flag));
        let mut v = String::new();
        push_decimal(&mut v, n as u64);
        assert(Seq::<char>::empty() + decimal(n as nat) =~= decimal(n as nat));
        args.push(v);
    }
    assert(args.deep_view() =~= before + keep_pair(flag@, n));
}

} // verus!
