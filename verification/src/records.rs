//! The record types that listing output decodes into, and the verified
//! constructors that apply each field's documented default.

use vstd::prelude::*;

use std::collections::HashMap;

use crate::ports::Port;
use crate::size::{parse_io_stats, parse_memory_usage, parse_size, spec_parse_pair,
    spec_parse_size};
use crate::text::{spec_strip_trailing_char, strip_trailing_char, str_eq};

verus! {

/// A container listing entry.
pub struct Container {
    pub id: String,
    pub names: Vec<String>,
    pub image: String,
    pub image_id: String,
    pub command: String,
    pub created: i64,
    pub ports: Vec<Port>,
    pub state: String,
    pub status: String,
    pub labels: HashMap<String, String>,
}

/// An image listing entry.
pub struct Image {
    pub id: String,
    pub parent_id: String,
    pub repo_tags: Option<Vec<String>>,
    pub repo_digests: Option<Vec<String>>,
    pub created: i64,
    pub size: i64,
    pub shared_size: i64,
    pub virtual_size: Option<i64>,
    pub labels: Option<HashMap<String, String>>,
    pub containers: i64,
}

/// A volume listing entry.
pub struct Volume {
    pub name: String,
    pub driver: String,
    pub mountpoint: String,
    pub created_at: Option<String>,
    pub status: Option<HashMap<String, String>>,
    pub labels: Option<HashMap<String, String>>,
    pub scope: String,
    pub options: Option<HashMap<String, String>>,
    pub usage_data: Option<UsageData>,
}

/// Disk usage of a volume; the compact listing format never carries it.
pub struct UsageData {
    pub size: i64,
    pub ref_count: i64,
}

/// A point-in-time resource snapshot of one container. The two percentages
/// stay as the numeric text left after stripping the trailing `%` signs, so
/// that a caller may interpret them at whatever precision it wants.
#[derive(Debug, PartialEq)]
pub struct StatsRecord {
    pub cpu_percent_text: String,
    pub memory_percent_text: String,
    pub memory_usage: u64,
    pub memory_limit: u64,
    pub network_rx: u64,
    pub network_tx: u64,
    pub block_read: u64,
    pub block_write: u64,
}

/// The text of an optional field, with `d` as the default.
pub open spec fn spec_str_or(o: Option<Seq<char>>, d: Seq<char>) -> Seq<char> {
    match o {
        Some(s) => s,
        None => d,
    }
}

/// Applies a field default.
pub fn str_or_default(o: Option<String>, d: &str) -> (r: String)
    ensures
        r@ == spec_str_or(o.deep_view(), d@),
{
    match o {
        Some(s) => s,
        None => String::from_str(d),
    }
}

/// Builds a container record from its extracted fields: absent strings
/// default to empty, the image identifier and the labels are never carried
/// by the listing format, and the single name becomes a one-element list.
pub fn container_from_fields(
    id: Option<String>,
    names: Option<String>,
    image: Option<String>,
    command: Option<String>,
    state: Option<String>,
    status: Option<String>,
    created: i64,
    ports: Vec<Port>,
) -> (c: Container)
    ensures
        c.id@ == spec_str_or(id.deep_view(), Seq::<char>::empty()),
        c.names.deep_view() == seq![spec_str_or(names.deep_view(), Seq::<char>::empty())],
        c.image@ == spec_str_or(image.deep_view(), Seq::<char>::empty()),
        c.image_id@ == Seq::<char>::empty(),
        c.command@ == spec_str_or(command.deep_view(), Seq::<char>::empty()),
        c.created == created,
        c.ports == ports,
        c.state@ == spec_str_or(state.deep_view(), Seq::<char>::empty()),
        c.status@ == spec_str_or(status.deep_view(), Seq::<char>::empty()),
        c.labels@ == Map::<String, String>::empty(),
{
    proof {
        reveal_strlit("");
        assert(""@ =~= Seq::<char>::empty());
    }
    let mut names_v: Vec<String> = Vec::new();
    names_v.push(str_or_default(names, ""));
    proof {
        assert(names_v.deep_view() =~= seq![
            spec_str_or(names.deep_view(), Seq::<char>::empty()),
        ]);
    }
    Container {
        id: str_or_default(id, ""),
        names: names_v,
        image: str_or_default(image, ""),
        image_id: String::new(),
        command: str_or_default(command, ""),
        created,
        ports,
        state: str_or_default(state, ""),
        status: str_or_default(status, ""),
        labels: HashMap::new(),
    }
}

/// The repo-tag list of an image: empty when the repository is the `<none>`
/// sentinel, otherwise the single entry `repository:tag`.
pub open spec fn spec_repo_tags(repo: Option<Seq<char>>, tag: Option<Seq<char>>) -> Seq<
    Seq<char>,
> {
    let r = spec_str_or(repo, "<none>"@);
    let t = spec_str_or(tag, "<none>"@);
    if r == "<none>"@ {
        Seq::empty()
    } else {
        seq![r + ":"@ + t]
    }
}

/// The size field of an image record: the parsed byte count, clamped into
/// the non-negative range of a signed count.
pub open spec fn spec_size_i64(s: Seq<char>) -> int {
    let n = spec_parse_size(s) as int;
    if n > i64::MAX {
        i64::MAX as int
    } else {
        n
    }
}

/// Builds an image record from its extracted fields: the identifier gains a
/// content-addressing prefix, the `<none>` repository sentinel empties the
/// tag list, and the counters the compact format omits stay zero.
pub fn image_from_fields(
    id: Option<String>,
    repo: Option<String>,
    tag: Option<String>,
    size_str: Option<String>,
    created: i64,
) -> (im: Image)
    ensures
        im.id@ == "sha256:"@ + spec_str_or(id.deep_view(), Seq::<char>::empty()),
        im.parent_id@ == Seq::<char>::empty(),
        im.repo_tags is Some,
        im.repo_tags->0.deep_view() == spec_repo_tags(repo.deep_view(), tag.deep_view()),
        im.repo_digests is None,
        im.created == created,
        im.size == spec_size_i64(spec_str_or(size_str.deep_view(), "0B"@)),
        im.shared_size == 0,
        im.virtual_size is None,
        im.labels is None,
        im.containers == 0,
{
    let repo_d = str_or_default(repo, "<none>");
    let tag_d = str_or_default(tag, "<none>");
    let mut tags: Vec<String> = Vec::new();
    if !str_eq(repo_d.as_str(), "<none>") {
        let joined = repo_d.concat(":").concat(tag_d.as_str());
        tags.push(joined);
        proof {
            assert(tags.deep_view() =~= spec_repo_tags(repo.deep_view(), tag.deep_view()));
        }
    } else {
        proof {
            assert(tags.deep_view() =~= spec_repo_tags(repo.deep_view(), tag.deep_view()));
        }
    }
    let id_d = str_or_default(id, "");
    let id_full = String::from_str("sha256:").concat(id_d.as_str());
    proof {
        reveal_strlit("");
        assert(""@ =~= Seq::<char>::empty());
    }
    let size_u = parse_size(str_or_default(size_str, "0B").as_str());
    let size_i: i64 = if size_u > 0x7fffffffffffffff {
        i64::MAX
    } else {
        size_u as i64
    };
    Image {
        id: id_full,
        parent_id: String::new(),
        repo_tags: Some(tags),
        repo_digests: None,
        created,
        size: size_i,
        shared_size: 0,
        virtual_size: None,
        labels: None,
        containers: 0,
    }
}

/// Builds a volume record from its extracted fields: name, driver and mount
/// path default to empty, the scope to `local`, and the richer metadata the
/// compact format omits stays unset.
pub fn volume_from_fields(
    name: Option<String>,
    driver: Option<String>,
    mountpoint: Option<String>,
    scope: Option<String>,
) -> (v: Volume)
    ensures
        v.name@ == spec_str_or(name.deep_view(), Seq::<char>::empty()),
        v.driver@ == spec_str_or(driver.deep_view(), Seq::<char>::empty()),
        v.mountpoint@ == spec_str_or(mountpoint.deep_view(), Seq::<char>::empty()),
        v.scope@ == spec_str_or(scope.deep_view(), "local"@),
        v.created_at is None,
        v.status is None,
        v.labels is None,
        v.options is None,
        v.usage_data is None,
{
    proof {
        reveal_strlit("");
        assert(""@ =~= Seq::<char>::empty());
    }
    Volume {
        name: str_or_default(name, ""),
        driver: str_or_default(driver, ""),
        mountpoint: str_or_default(mountpoint, ""),
        created_at: None,
        status: None,
        labels: None,
        scope: str_or_default(scope, "local"),
        options: None,
        usage_data: None,
    }
}

/// Builds a stats record from the extracted display strings: percentages
/// lose their trailing `%` signs, and each combined `used / limit` string is
/// split and parsed as a pair of sizes.
pub fn stats_from_fields(
    cpu: Option<String>,
    mem_perc: Option<String>,
    mem_usage: Option<String>,
    net_io: Option<String>,
    block_io: Option<String>,
) -> (st: StatsRecord)
    ensures
        st.cpu_percent_text@ == spec_strip_trailing_char(spec_str_or(cpu.deep_view(), "0%"@), '%'),
        st.memory_percent_text@ == spec_strip_trailing_char(
            spec_str_or(mem_perc.deep_view(), "0%"@),
            '%',
        ),
        (st.memory_usage, st.memory_limit) == spec_parse_pair(
            spec_str_or(mem_usage.deep_view(), "0B / 0B"@),
        ),
        (st.network_rx, st.network_tx) == spec_parse_pair(
            spec_str_or(net_io.deep_view(), "0B / 0B"@),
        ),
        (st.block_read, st.block_write) == spec_parse_pair(
            spec_str_or(block_io.deep_view(), "0B / 0B"@),
        ),
{
    let cpu_d = str_or_default(cpu, "0%");
    let memp_d = str_or_default(mem_perc, "0%");
    let cpu_t = String::from_str(strip_trailing_char(cpu_d.as_str(), '%'));
    let memp_t = String::from_str(strip_trailing_char(memp_d.as_str(), '%'));
    let (memory_usage, memory_limit) = parse_memory_usage(
        str_or_default(mem_usage, "0B / 0B").as_str(),
    );
    let (network_rx, network_tx) = parse_io_stats(str_or_default(net_io, "0B / 0B").as_str());
    let (block_read, block_write) = parse_io_stats(str_or_default(block_io, "0B / 0B").as_str());
    StatsRecord {
        cpu_percent_text: cpu_t,
        memory_percent_text: memp_t,
        memory_usage,
        memory_limit,
        network_rx,
        network_tx,
        block_read,
        block_write,
    }
}

} // verus!
