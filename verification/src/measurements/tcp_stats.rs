//! TCP statistics of a socket, of which each but the retransmits may be missing.

use vstd::prelude::*;

verus! {

/// Flag of a known congestion window.
pub const TCP_SND_CWND_PRESENT: u8 = 1;

/// Flag of a known round-trip time.
pub const TCP_RTT_PRESENT: u8 = 2;

/// Flag of a known variance of the round-trip time.
pub const TCP_RTTVAR_PRESENT: u8 = 4;

/// Flag of a known path MTU.
pub const TCP_PMTU_PRESENT: u8 = 8;

/// TCP-specific statistics for a measurement interval.
///
/// Contains TCP protocol information collected from the socket during the test.
/// These statistics are platform-specific and may not be available on all systems: a value counts
/// only where its flag is set.
#[derive(Debug, Clone, Copy, PartialEq, Eq, Structural)]
pub struct TcpStats {
    /// Segments sent again
    pub retransmits: u64,
    /// Congestion window in bytes
    pub snd_cwnd: u64,
    /// Round-trip time in microseconds
    pub rtt: u64,
    /// Variance of the round-trip time in microseconds
    pub rttvar: u64,
    /// Path MTU in bytes
    pub pmtu: u64,
    /// Which of the values are known
    pub flags: u8,
}

/// The form of the statistics that is read and written: each missing value is `None`.
#[derive(Debug, Clone, Copy, PartialEq, Eq)]
pub struct TcpStatsDto {
    /// Segments sent again
    pub retransmits: u64,
    /// Congestion window in bytes
    pub snd_cwnd: Option<u64>,
    /// Round-trip time in microseconds
    pub rtt: Option<u64>,
    /// Variance of the round-trip time in microseconds
    pub rttvar: Option<u64>,
    /// Path MTU in bytes
    pub pmtu: Option<u64>,
}

/// Statistics of which nothing is known, and no segment was sent again.
pub open spec fn no_stats() -> TcpStats {
    TcpStats { retransmits: 0, snd_cwnd: 0, rtt: 0, rttvar: 0, pmtu: 0, flags: 0 }
}

/// What the kernel reports of a TCP socket, as far as it is used.
#[derive(Debug, Clone, Copy, PartialEq, Eq, Structural)]
pub struct TcpInfo {
    /// Segments sent again since the connection began
    pub total_retrans: u32,
    /// Congestion window in segments
    pub snd_cwnd: u32,
    /// Bytes in a segment
    pub snd_mss: u32,
    /// Round-trip time in microseconds
    pub rtt: u32,
    /// Variance of the round-trip time in microseconds
    pub rttvar: u32,
    /// Path MTU in bytes
    pub pmtu: u32,
}

/// A value that counts only where its flag is set.
pub open spec fn optional(flags: u8, flag: u8, value: u64) -> Option<u64> {
    if flags & flag != 0 {
        Some(value)
    } else {
        None
    }
}

/// The written form of the statistics.
pub open spec fn dto_of(stats: TcpStats) -> TcpStatsDto {
    TcpStatsDto {
        retransmits: stats.retransmits,
        snd_cwnd: optional(stats.flags, TCP_SND_CWND_PRESENT, stats.snd_cwnd),
        rtt: optional(stats.flags, TCP_RTT_PRESENT, stats.rtt),
        rttvar: optional(stats.flags, TCP_RTTVAR_PRESENT, stats.rttvar),
        pmtu: optional(stats.flags, TCP_PMTU_PRESENT, stats.pmtu),
    }
}

/// The flag of a value that may be missing.
pub open spec fn flag_if(value: Option<u64>, flag: u8) -> u8 {
    if value is Some {
        flag
    } else {
        0
    }
}

/// A value that may be missing, or zero.
pub open spec fn or_zero(value: Option<u64>) -> u64 {
    match value {
        Some(v) => v,
        None => 0,
    }
}

/// The statistics that a written form stands for: a missing value is zero without its flag.
pub open spec fn stats_of(dto: TcpStatsDto) -> TcpStats {
    TcpStats {
        retransmits: dto.retransmits,
        snd_cwnd: or_zero(dto.snd_cwnd),
        rtt: or_zero(dto.rtt),
        rttvar: or_zero(dto.rttvar),
        pmtu: or_zero(dto.pmtu),
        flags: flag_if(dto.snd_cwnd, TCP_SND_CWND_PRESENT) | flag_if(dto.rtt, TCP_RTT_PRESENT)
            | flag_if(dto.rttvar, TCP_RTTVAR_PRESENT) | flag_if(dto.pmtu, TCP_PMTU_PRESENT),
    }
}

impl Default for TcpStats {
    fn default() -> (r: Self)
        ensures
            r == no_stats(),
    {
        TcpStats { retransmits: 0, snd_cwnd: 0, rtt: 0, rttvar: 0, pmtu: 0, flags: 0 }
    }
}

impl vstd::std_specs::convert::FromSpecImpl<TcpStatsDto> for TcpStats {
    open spec fn obeys_from_spec() -> bool {
        true
    }

    open spec fn from_spec(dto: TcpStatsDto) -> Self {
        stats_of(dto)
    }
}

impl From<TcpStatsDto> for TcpStats {
    fn from(dto: TcpStatsDto) -> (r: Self) {
        let mut flags: u8 = 0;
        let snd_cwnd: u64 = match dto.snd_cwnd {
            Some(v) => {
                flags = flags | TCP_SND_CWND_PRESENT;
                v
            },
            None => 0,
        };
        let rtt: u64 = match dto.rtt {
            Some(v) => {
                flags = flags | TCP_RTT_PRESENT;
                v
            },
            None => 0,
        };
        let rttvar: u64 = match dto.rttvar {
            Some(v) => {
                flags = flags | TCP_RTTVAR_PRESENT;
                v
            },
            None => 0,
        };
        let pmtu: u64 = match dto.pmtu {
            Some(v) => {
                flags = flags | TCP_PMTU_PRESENT;
                v
            },
            None => 0,
        };
        proof {
            lemma_no_flag();
        }
        TcpStats { retransmits: dto.retransmits, snd_cwnd, rtt, rttvar, pmtu, flags }
    }
}

/// A missing flag adds nothing to the others.
proof fn lemma_no_flag()
    ensures
        forall|a: u8| #[trigger] (a | 0u8) == a,
        forall|a: u8| #[trigger] (0u8 | a) == a,
{
    assert(forall|a: u8| #[trigger] (a | 0u8) == a) by (bit_vector);
    assert(forall|a: u8| #[trigger] (0u8 | a) == a) by (bit_vector);
}

impl TcpStats {
    /// True when a flag is set.
    pub fn has_flag(&self, flag: u8) -> (r: bool)
        ensures
            r == (self.flags & flag != 0),
    {
        self.flags & flag != 0
    }

    /// Sets a flag and leaves the others as they are.
    pub fn set_flag(&mut self, flag: u8)
        ensures
            *final(self) == (TcpStats { flags: old(self).flags | flag, ..*old(self) }),
    {
        self.flags = self.flags | flag;
    }

    /// The congestion window, if it is known.
    pub fn snd_cwnd_opt(&self) -> (r: Option<u64>)
        ensures
            r == optional(self.flags, TCP_SND_CWND_PRESENT, self.snd_cwnd),
    {
        if self.has_flag(TCP_SND_CWND_PRESENT) {
            Some(self.snd_cwnd)
        } else {
            None
        }
    }

    /// The round-trip time, if it is known.
    pub fn rtt_opt(&self) -> (r: Option<u64>)
        ensures
            r == optional(self.flags, TCP_RTT_PRESENT, self.rtt),
    {
        if self.has_flag(TCP_RTT_PRESENT) {
            Some(self.rtt)
        } else {
            None
        }
    }

    /// The variance of the round-trip time, if it is known.
    pub fn rttvar_opt(&self) -> (r: Option<u64>)
        ensures
            r == optional(self.flags, TCP_RTTVAR_PRESENT, self.rttvar),
    {
        if self.has_flag(TCP_RTTVAR_PRESENT) {
            Some(self.rttvar)
        } else {
            None
        }
    }

    /// The path MTU, if it is known.
    pub fn pmtu_opt(&self) -> (r: Option<u64>)
        ensures
            r == optional(self.flags, TCP_PMTU_PRESENT, self.pmtu),
    {
        if self.has_flag(TCP_PMTU_PRESENT) {
            Some(self.pmtu)
        } else {
            None
        }
    }

    /// The written form of the statistics: a value whose flag is clear is written as missing,
    /// whatever is stored in it.
    pub fn serialize(&self) -> (r: TcpStatsDto)
        ensures
            r == dto_of(*self),
    {
        TcpStatsDto {
            retransmits: self.retransmits,
            snd_cwnd: self.snd_cwnd_opt(),
            rtt: self.rtt_opt(),
            rttvar: self.rttvar_opt(),
            pmtu: self.pmtu_opt(),
        }
    }

    /// The statistics of a socket from the kernel's report, or the default ones when there is
    /// none. The congestion window is turned from segments to bytes.
    pub fn from_tcp_info(info: Option<TcpInfo>) -> (r: Self)
        ensures
            r == match info {
                None => no_stats(),
                Some(i) => stats_of(
                    TcpStatsDto {
                        retransmits: i.total_retrans as u64,
                        snd_cwnd: Some((i.snd_cwnd * i.snd_mss) as u64),
                        rtt: Some(i.rtt as u64),
                        rttvar: Some(i.rttvar as u64),
                        pmtu: Some(i.pmtu as u64),
                    },
                ),
            },
            info matches Some(i) ==> r.snd_cwnd == i.snd_cwnd * i.snd_mss,
    {
        match info {
            None => TcpStats::default(),
            Some(i) => {
                assert(i.snd_cwnd * i.snd_mss <= u64::MAX) by (nonlinear_arith)
                    requires
                        i.snd_cwnd <= u32::MAX,
                        i.snd_mss <= u32::MAX,
                ;
                let window: u64 = i.snd_cwnd as u64 * i.snd_mss as u64;
                TcpStats {
                    retransmits: i.total_retrans as u64,
                    snd_cwnd: window,
                    rtt: i.rtt as u64,
                    rttvar: i.rttvar as u64,
                    pmtu: i.pmtu as u64,
                    flags: TCP_SND_CWND_PRESENT | TCP_RTT_PRESENT | TCP_RTTVAR_PRESENT
                        | TCP_PMTU_PRESENT,
                }
            },
        }
    }
}

/// Law: statistics that were read from a written form write out as that form again.
pub proof fn law_dto_round_trip(dto: TcpStatsDto)
    ensures
        dto_of(stats_of(dto)) == dto,
{
    let a = flag_if(dto.snd_cwnd, TCP_SND_CWND_PRESENT);
    let b = flag_if(dto.rtt, TCP_RTT_PRESENT);
    let c = flag_if(dto.rttvar, TCP_RTTVAR_PRESENT);
    let d = flag_if(dto.pmtu, TCP_PMTU_PRESENT);
    assert((a | b | c | d) & 1 == a && (a | b | c | d) & 2 == b && (a | b | c | d) & 4 == c && (a
        | b | c | d) & 8 == d) by (bit_vector)
        requires
            a == 0 || a == 1,
            b == 0 || b == 2,
            c == 0 || c == 4,
            d == 0 || d == 8,
    ;
}

/// Law: statistics that are written out and read back show the same values: the retransmits are
/// the same, each known value is the same, and each missing one is missing, whatever was stored in
/// its place.
pub proof fn law_written_round_trip(stats: TcpStats)
    ensures
        ({
            let back = stats_of(dto_of(stats));
            &&& dto_of(back) == dto_of(stats)
            &&& back.retransmits == stats.retransmits
            &&& optional(back.flags, TCP_SND_CWND_PRESENT, back.snd_cwnd) == optional(
                stats.flags,
                TCP_SND_CWND_PRESENT,
                stats.snd_cwnd,
            )
            &&& optional(back.flags, TCP_RTT_PRESENT, back.rtt) == optional(
                stats.flags,
                TCP_RTT_PRESENT,
                stats.rtt,
            )
            &&& optional(back.flags, TCP_RTTVAR_PRESENT, back.rttvar) == optional(
                stats.flags,
                TCP_RTTVAR_PRESENT,
                stats.rttvar,
            )
            &&& optional(back.flags, TCP_PMTU_PRESENT, back.pmtu) == optional(
                stats.flags,
                TCP_PMTU_PRESENT,
                stats.pmtu,
            )
        }),
        stats.flags & TCP_SND_CWND_PRESENT == 0 ==> dto_of(stats).snd_cwnd is None,
        stats.flags & TCP_RTT_PRESENT == 0 ==> dto_of(stats).rtt is None,
        stats.flags & TCP_RTTVAR_PRESENT == 0 ==> dto_of(stats).rttvar is None,
        stats.flags & TCP_PMTU_PRESENT == 0 ==> dto_of(stats).pmtu is None,
{
    law_dto_round_trip(dto_of(stats));
}

/// Law: setting a flag makes its value known and changes no other of the four values.
pub proof fn law_set_flag(stats: TcpStats, flag: u8, other: u8)
    requires
        flag == 1 || flag == 2 || flag == 4 || flag == 8,
        other == 1 || other == 2 || other == 4 || other == 8,
    ensures
        (stats.flags | flag) & flag != 0,
        other != flag ==> (stats.flags | flag) & other == stats.flags & other,
{
    let flags = stats.flags;
    assert((flags | flag) & flag != 0) by (bit_vector)
        requires
            flag == 1 || flag == 2 || flag == 4 || flag == 8,
    ;
    assert(other != flag ==> (flags | flag) & other == flags & other) by (bit_vector)
        requires
            flag == 1 || flag == 2 || flag == 4 || flag == 8,
            other == 1 || other == 2 || other == 4 || other == 8,
    ;
}

/// Law: each written value is the one of the same name, known just when its flag is set: the first
/// flag for the congestion window, the second for the round-trip time, the third for its variance
/// and the fourth for the path MTU.
pub proof fn law_values_keep_their_names(stats: TcpStats, dto: TcpStatsDto)
    ensures
        dto_of(stats).retransmits == stats.retransmits,
        dto_of(stats).snd_cwnd == if stats.flags & 1 != 0 {
            Some(stats.snd_cwnd)
        } else {
            None
        },
        dto_of(stats).rtt == if stats.flags & 2 != 0 {
            Some(stats.rtt)
        } else {
            None
        },
        dto_of(stats).rttvar == if stats.flags & 4 != 0 {
            Some(stats.rttvar)
        } else {
            None
        },
        dto_of(stats).pmtu == if stats.flags & 8 != 0 {
            Some(stats.pmtu)
        } else {
            None
        },
        stats_of(dto).retransmits == dto.retransmits,
        dto.snd_cwnd matches Some(v) ==> stats_of(dto).snd_cwnd == v,
        dto.rtt matches Some(v) ==> stats_of(dto).rtt == v,
        dto.rttvar matches Some(v) ==> stats_of(dto).rttvar == v,
        dto.pmtu matches Some(v) ==> stats_of(dto).pmtu == v,
        stats_of(dto).flags & 1 != 0 <==> dto.snd_cwnd is Some,
        stats_of(dto).flags & 2 != 0 <==> dto.rtt is Some,
        stats_of(dto).flags & 4 != 0 <==> dto.rttvar is Some,
        stats_of(dto).flags & 8 != 0 <==> dto.pmtu is Some,
{
    law_dto_round_trip(dto);
}

} // verus!
