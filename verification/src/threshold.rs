//! The catalogs of permitted rotation thresholds.
//!
//! A threshold is never an arbitrary number: a file may grow to one of
//! thirteen fixed sizes, and may be kept for one of six fixed periods. A
//! number is turned into a threshold only if it is exactly one of those.

use vstd::prelude::*;
use crate::error::ConfigError;

verus! {

/// The size at which the active log file is replaced.
#[derive(Debug, Clone, Copy, PartialEq, Eq, Hash, Structural)]
pub enum RollingSizeOptions {
    OneKB,
    FiveKB,
    TenKB,
    TwentyKB,
    FiftyKB,
    HundredKB,
    HalfMB,
    OneMB,
    FiveMB,
    TenMB,
    TwentyMB,
    FiftyMB,
    HundredMB,
}

impl RollingSizeOptions {
    /// The size in bytes.
    pub open spec fn spec_bytes(self) -> u64 {
        match self {
            RollingSizeOptions::OneKB => 1024,
            RollingSizeOptions::FiveKB => 5120,
            RollingSizeOptions::TenKB => 10240,
            RollingSizeOptions::TwentyKB => 20480,
            RollingSizeOptions::FiftyKB => 51200,
            RollingSizeOptions::HundredKB => 102400,
            RollingSizeOptions::HalfMB => 524288,
            RollingSizeOptions::OneMB => 1048576,
            RollingSizeOptions::FiveMB => 5242880,
            RollingSizeOptions::TenMB => 10485760,
            RollingSizeOptions::TwentyMB => 20971520,
            RollingSizeOptions::FiftyMB => 52428800,
            RollingSizeOptions::HundredMB => 104857600,
        }
    }

    /// The member of the catalog that is exactly `value` bytes, if any.
    pub open spec fn of_bytes(value: u64) -> Option<RollingSizeOptions> {
        if value == RollingSizeOptions::OneKB.spec_bytes() {
            Some(RollingSizeOptions::OneKB)
        } else if value == RollingSizeOptions::FiveKB.spec_bytes() {
            Some(RollingSizeOptions::FiveKB)
        } else if value == RollingSizeOptions::TenKB.spec_bytes() {
            Some(RollingSizeOptions::TenKB)
        } else if value == RollingSizeOptions::TwentyKB.spec_bytes() {
            Some(RollingSizeOptions::TwentyKB)
        } else if value == RollingSizeOptions::FiftyKB.spec_bytes() {
            Some(RollingSizeOptions::FiftyKB)
        } else if value == RollingSizeOptions::HundredKB.spec_bytes() {
            Some(RollingSizeOptions::HundredKB)
        } else if value == RollingSizeOptions::HalfMB.spec_bytes() {
            Some(RollingSizeOptions::HalfMB)
        } else if value == RollingSizeOptions::OneMB.spec_bytes() {
            Some(RollingSizeOptions::OneMB)
        } else if value == RollingSizeOptions::FiveMB.spec_bytes() {
            Some(RollingSizeOptions::FiveMB)
        } else if value == RollingSizeOptions::TenMB.spec_bytes() {
            Some(RollingSizeOptions::TenMB)
        } else if value == RollingSizeOptions::TwentyMB.spec_bytes() {
            Some(RollingSizeOptions::TwentyMB)
        } else if value == RollingSizeOptions::FiftyMB.spec_bytes() {
            Some(RollingSizeOptions::FiftyMB)
        } else if value == RollingSizeOptions::HundredMB.spec_bytes() {
            Some(RollingSizeOptions::HundredMB)
        } else {
            None
        }
    }

    /// The size in bytes.
    #[verifier::when_used_as_spec(spec_bytes)]
    pub fn bytes(self) -> (n: u64)
        ensures
            n == self.spec_bytes(),
    {
        match self {
            RollingSizeOptions::OneKB => 1024,
            RollingSizeOptions::FiveKB => 5 * 1024,
            RollingSizeOptions::TenKB => 10 * 1024,
            RollingSizeOptions::TwentyKB => 20 * 1024,
            RollingSizeOptions::FiftyKB => 50 * 1024,
            RollingSizeOptions::HundredKB => 100 * 1024,
            RollingSizeOptions::HalfMB => 512 * 1024,
            RollingSizeOptions::OneMB => 1024 * 1024,
            RollingSizeOptions::FiveMB => 5 * 1024 * 1024,
            RollingSizeOptions::TenMB => 10 * 1024 * 1024,
            RollingSizeOptions::TwentyMB => 20 * 1024 * 1024,
            RollingSizeOptions::FiftyMB => 50 * 1024 * 1024,
            RollingSizeOptions::HundredMB => 100 * 1024 * 1024,
        }
    }

    /// Finds the member of the catalog that is exactly `value` bytes. Any
    /// other number is rejected, however close it lies to a member.
    pub fn from_u64(value: u64) -> (r: Result<RollingSizeOptions, ConfigError>)
        ensures
            r == match RollingSizeOptions::of_bytes(value) {
                Some(size) => Ok::<RollingSizeOptions, ConfigError>(size),
                None => Err(ConfigError::InvalidThreshold),
            },
    {
        if value == RollingSizeOptions::OneKB.bytes() {
            Ok(RollingSizeOptions::OneKB)
        } else if value == RollingSizeOptions::FiveKB.bytes() {
            Ok(RollingSizeOptions::FiveKB)
        } else if value == RollingSizeOptions::TenKB.bytes() {
            Ok(RollingSizeOptions::TenKB)
        } else if value == RollingSizeOptions::TwentyKB.bytes() {
            Ok(RollingSizeOptions::TwentyKB)
        } else if value == RollingSizeOptions::FiftyKB.bytes() {
            Ok(RollingSizeOptions::FiftyKB)
        } else if value == RollingSizeOptions::HundredKB.bytes() {
            Ok(RollingSizeOptions::HundredKB)
        } else if value == RollingSizeOptions::HalfMB.bytes() {
            Ok(RollingSizeOptions::HalfMB)
        } else if value == RollingSizeOptions::OneMB.bytes() {
            Ok(RollingSizeOptions::OneMB)
        } else if value == RollingSizeOptions::FiveMB.bytes() {
            Ok(RollingSizeOptions::FiveMB)
        } else if value == RollingSizeOptions::TenMB.bytes() {
            Ok(RollingSizeOptions::TenMB)
        } else if value == RollingSizeOptions::TwentyMB.bytes() {
            Ok(RollingSizeOptions::TwentyMB)
        } else if value == RollingSizeOptions::FiftyMB.bytes() {
            Ok(RollingSizeOptions::FiftyMB)
        } else if value == RollingSizeOptions::HundredMB.bytes() {
            Ok(RollingSizeOptions::HundredMB)
        } else {
            Err(ConfigError::InvalidThreshold)
        }
    }

    /// No two members of the catalog have the same size.
    pub proof fn lemma_bytes_injective(a: RollingSizeOptions, b: RollingSizeOptions)
        ensures
            a.bytes() == b.bytes() <==> a == b,
    {
    }

    /// What `of_bytes` finds for `value` has exactly that size, and it finds
    /// nothing only if no member has it.
    pub proof fn lemma_of_bytes_exact(value: u64)
        ensures
            forall|size: RollingSizeOptions|
                RollingSizeOptions::of_bytes(value) == Some(size) <==> size.bytes() == value,
            RollingSizeOptions::of_bytes(value).is_none() <==> forall|size: RollingSizeOptions|
                size.bytes() != value,
    {
    }

    /// Every member of the catalog is found again from its size.
    pub proof fn lemma_round_trip(size: RollingSizeOptions)
        ensures
            RollingSizeOptions::of_bytes(size.bytes()) == Some(size),
    {
    }
}

/// The age at which the active log file is replaced.
#[derive(Debug, Clone, Copy, PartialEq, Eq, Hash, Structural)]
pub enum RollingTimeOptions {
    Minutely,
    Hourly,
    Daily,
    Weekly,
    Monthly,
    Yearly,
}

impl RollingTimeOptions {
    /// The period in seconds. A month counts 30 days and a year 12 such
    /// months.
    pub open spec fn spec_seconds(self) -> u64 {
        match self {
            RollingTimeOptions::Minutely => 60,
            RollingTimeOptions::Hourly => 3600,
            RollingTimeOptions::Daily => 86400,
            RollingTimeOptions::Weekly => 604800,
            RollingTimeOptions::Monthly => 2592000,
            RollingTimeOptions::Yearly => 31104000,
        }
    }

    /// The member of the catalog that is exactly `value` seconds, if any.
    pub open spec fn of_seconds(value: u64) -> Option<RollingTimeOptions> {
        if value == RollingTimeOptions::Minutely.spec_seconds() {
            Some(RollingTimeOptions::Minutely)
        } else if value == RollingTimeOptions::Hourly.spec_seconds() {
            Some(RollingTimeOptions::Hourly)
        } else if value == RollingTimeOptions::Daily.spec_seconds() {
            Some(RollingTimeOptions::Daily)
        } else if value == RollingTimeOptions::Weekly.spec_seconds() {
            Some(RollingTimeOptions::Weekly)
        } else if value == RollingTimeOptions::Monthly.spec_seconds() {
            Some(RollingTimeOptions::Monthly)
        } else if value == RollingTimeOptions::Yearly.spec_seconds() {
            Some(RollingTimeOptions::Yearly)
        } else {
            None
        }
    }

    /// The period in seconds.
    #[verifier::when_used_as_spec(spec_seconds)]
    pub fn seconds(self) -> (n: u64)
        ensures
            n == self.spec_seconds(),
    {
        match self {
            RollingTimeOptions::Minutely => 60,
            RollingTimeOptions::Hourly => 60 * 60,
            RollingTimeOptions::Daily => 24 * 60 * 60,
            RollingTimeOptions::Weekly => 7 * 24 * 60 * 60,
            RollingTimeOptions::Monthly => 30 * 24 * 60 * 60,
            RollingTimeOptions::Yearly => 12 * 30 * 24 * 60 * 60,
        }
    }

    /// Finds the member of the catalog that is exactly `value` seconds. Any
    /// other number is rejected.
    pub fn from_u64(value: u64) -> (r: Result<RollingTimeOptions, ConfigError>)
        ensures
            r == match RollingTimeOptions::of_seconds(value) {
                Some(time) => Ok::<RollingTimeOptions, ConfigError>(time),
                None => Err(ConfigError::InvalidThreshold),
            },
    {
        if value == RollingTimeOptions::Minutely.seconds() {
            Ok(RollingTimeOptions::Minutely)
        } else if value == RollingTimeOptions::Hourly.seconds() {
            Ok(RollingTimeOptions::Hourly)
        } else if value == RollingTimeOptions::Daily.seconds() {
            Ok(RollingTimeOptions::Daily)
        } else if value == RollingTimeOptions::Weekly.seconds() {
            Ok(RollingTimeOptions::Weekly)
        } else if value == RollingTimeOptions::Monthly.seconds() {
            Ok(RollingTimeOptions::Monthly)
        } else if value == RollingTimeOptions::Yearly.seconds() {
            Ok(RollingTimeOptions::Yearly)
        } else {
            Err(ConfigError::InvalidThreshold)
        }
    }

    /// No two members of the catalog have the same period.
    pub proof fn lemma_seconds_injective(a: RollingTimeOptions, b: RollingTimeOptions)
        ensures
            a.seconds() == b.seconds() <==> a == b,
    {
    }

    /// What `of_seconds` finds for `value` has exactly that period, and it
    /// finds nothing only if no member has it.
    pub proof fn lemma_of_seconds_exact(value: u64)
        ensures
            forall|time: RollingTimeOptions|
                RollingTimeOptions::of_seconds(value) == Some(time) <==> time.seconds() == value,
            RollingTimeOptions::of_seconds(value).is_none() <==> forall|time: RollingTimeOptions|
                time.seconds() != value,
    {
    }

    /// Every member of the catalog is found again from its period.
    pub proof fn lemma_round_trip(time: RollingTimeOptions)
        ensures
            RollingTimeOptions::of_seconds(time.seconds()) == Some(time),
    {
    }
}

} // verus!
