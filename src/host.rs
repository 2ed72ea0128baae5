use vstd::prelude::*;

verus! {

/// What a host fact reads as when the system does not report it.
pub open spec fn unknown() -> Seq<char> {
    seq!['U', 'n', 'k', 'n', 'o', 'w', 'n']
}

/// The reported text, or `unknown()` where there is none.
pub open spec fn fact_or_unknown(fact: Option<String>) -> Seq<char> {
    match fact {
        Some(s) => s@,
        None => unknown(),
    }
}

/// The reported text, or "Unknown" where the system gave none.
pub fn or_unknown(fact: Option<String>) -> (r: String)
    ensures
        r@ == fact_or_unknown(fact),
{
    match fact {
        Some(s) => s,
        None => {
            let r = "Unknown".to_owned();
            proof {
                reveal_strlit("Unknown");
            }
            r
        },
    }
}

/// Identity facts of the host.
#[derive(Clone, Debug)]
pub struct StaticSystemInfo {
    pub hostname: String,
    pub os_name: String,
    pub os_version: String,
    pub kernel_version: String,
    pub uptime: u64,
}

/// Host facts from what the system reported; each missing one reads "Unknown"
/// on its own, without touching the others.
pub fn system_facts(
    hostname: Option<String>,
    os_name: Option<String>,
    os_version: Option<String>,
    kernel_version: Option<String>,
    uptime: u64,
) -> (r: StaticSystemInfo)
    ensures
        r.hostname@ == fact_or_unknown(hostname),
        r.os_name@ == fact_or_unknown(os_name),
        r.os_version@ == fact_or_unknown(os_version),
        r.kernel_version@ == fact_or_unknown(kernel_version),
        r.uptime == uptime,
{
    StaticSystemInfo {
        hostname: or_unknown(hostname),
        os_name: or_unknown(os_name),
        os_version: or_unknown(os_version),
        kernel_version: or_unknown(kernel_version),
        uptime,
    }
}

/// Processor facts of the host, read off its first core.
#[derive(Clone, Debug)]
pub struct CpuSummary {
    pub name: String,
    pub core_count: usize,
    pub frequency: u64,
}

/// Summary from the brand and frequency of the first core, if there is one,
/// and the number of cores; "Unknown" and zero stand in without a core.
pub fn cpu_summary(first_core: Option<(String, u64)>, core_count: usize) -> (r: CpuSummary)
    ensures
        r.core_count == core_count,
        match first_core {
            Some((brand, frequency)) => r.name@ == brand@ && r.frequency == frequency,
            None => r.name@ == unknown() && r.frequency == 0,
        },
{
    match first_core {
        Some((brand, frequency)) => CpuSummary { name: brand, core_count, frequency },
        None => CpuSummary { name: or_unknown(None), core_count, frequency: 0 },
    }
}

} // verus!
