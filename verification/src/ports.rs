//! The port-mapping parser: a comma-space-separated list of tokens, each
//! `HOST->CONTAINER` or a bare container port. Only published mappings (those
//! with an arrow) are reported, in input order.

use vstd::prelude::*;

use crate::text::{
    find_last_char, lemma_find_last_props, parse_u16, spec_find_last, spec_parse_u16, spec_split,
    split_str,
};

verus! {

/// One published port mapping.
pub struct Port {
    pub ip: Option<String>,
    pub private_port: u16,
    pub public_port: Option<u16>,
    pub port_type: String,
}

/// The mathematical model of a port mapping.
pub ghost struct PortModel {
    pub ip: Option<Seq<char>>,
    pub private_port: u16,
    pub public_port: Option<u16>,
    pub port_type: Seq<char>,
}

impl View for Port {
    type V = PortModel;

    open spec fn view(&self) -> PortModel {
        PortModel {
            ip: match self.ip {
                Some(s) => Some(s@),
                None => None,
            },
            private_port: self.private_port,
            public_port: self.public_port,
            port_type: self.port_type@,
        }
    }
}

/// The mapping that one comma-separated token denotes: `None` for a token
/// without exactly one `->`. The host half is cut at its last colon into an
/// address and a public port; the container half is cut at slashes into a
/// private port and a transport type that defaults to `tcp`. A port that does
/// not parse degrades to 0 on the private side and to `None` on the public
/// side.
pub open spec fn spec_port_of_token(t: Seq<char>) -> Option<PortModel> {
    let parts = spec_split(t, "->"@);
    if parts.len() == 2 {
        let host = parts[0];
        let cont = parts[1];
        let ip = match spec_find_last(host, ':') {
            Some(ci) => Some(host.take(ci)),
            None => None::<Seq<char>>,
        };
        let pubp = match spec_find_last(host, ':') {
            Some(ci) => spec_parse_u16(host.skip(ci + 1)),
            None => spec_parse_u16(host),
        };
        let cparts = spec_split(cont, "/"@);
        let privp = match spec_parse_u16(cparts[0]) {
            Some(p) => p,
            None => 0,
        };
        let ptype = if cparts.len() >= 2 {
            cparts[1]
        } else {
            "tcp"@
        };
        Some(
            PortModel {
                ip,
                private_port: privp,
                public_port: pubp,
                port_type: ptype,
            },
        )
    } else {
        None
    }
}

/// The published mappings that a ports string denotes, in input order.
pub open spec fn spec_parse_ports(s: Seq<char>) -> Seq<PortModel> {
    spec_split(s, ", "@).filter_map(|t: Seq<char>| spec_port_of_token(t))
}

pub open spec fn opt_port_view(p: Option<Port>) -> Option<PortModel> {
    match p {
        Some(q) => Some(q@),
        None => None,
    }
}

/// The models of a sequence of ports.
pub open spec fn ports_view(ps: Seq<Port>) -> Seq<PortModel> {
    ps.map_values(|p: Port| p@)
}

#[verifier::loop_isolation(false)]
fn port_of_token(t: &str) -> (r: Option<Port>)
    ensures
        opt_port_view(r) == spec_port_of_token(t@),
{
    proof {
        reveal_strlit("->");
        reveal_strlit("/");
        reveal_strlit("tcp");
    }
    let parts = split_str(t, "->");
    if parts.len() != 2 {
        return None;
    }
    let host = parts[0].as_str();
    let cont = parts[1].as_str();
    proof {
        assert(host@ == parts.deep_view()[0]);
        assert(cont@ == parts.deep_view()[1]);
    }
    let hn = host.unicode_len();
    let (ip, pubp) = match find_last_char(host, ':') {
        Some(ci) => {
            proof {
                lemma_find_last_props(host@, ':');
                assert(host@.subrange(0, ci as int) =~= host@.take(ci as int));
                assert(host@.subrange(ci as int + 1, hn as int) =~= host@.skip(ci as int + 1));
            }
            let ips = host.substring_char(0, ci);
            let pp = host.substring_char(ci + 1, hn);
            (Some(String::from_str(ips)), parse_u16(pp))
        },
        None => (None, parse_u16(host)),
    };
    let cparts = split_str(cont, "/");
    proof {
        assert(cparts@[0]@ == cparts.deep_view()[0]);
        crate::text::lemma_split_len(cont@, "/"@);
    }
    let privp = match parse_u16(cparts[0].as_str()) {
        Some(p) => p,
        None => 0,
    };
    let ptype = if cparts.len() >= 2 {
        proof {
            assert(cparts@[1]@ == cparts.deep_view()[1]);
        }
        parts_second(&cparts)
    } else {
        String::from_str("tcp")
    };
    Some(Port { ip, private_port: privp, public_port: pubp, port_type: ptype })
}

/// Clones the second piece out of a split result.
fn parts_second(parts: &Vec<String>) -> (r: String)
    requires
        parts@.len() >= 2,
    ensures
        r@ == parts@[1]@,
{
    let s = parts[1].as_str();
    String::from_str(s)
}

/// Parses a comma-space-separated ports string into the published mappings,
/// preserving input order and duplicates.
#[verifier::loop_isolation(false)]
pub fn parse_ports(ports_str: &str) -> (r: Vec<Port>)
    ensures
        ports_view(r@) == spec_parse_ports(ports_str@),
{
    proof {
        reveal_strlit(", ");
    }
    let toks = split_str(ports_str, ", ");
    let ghost tv = toks.deep_view();
    let ghost f = (|t: Seq<char>| spec_port_of_token(t));
    let mut r: Vec<Port> = Vec::new();
    let mut k: usize = 0;
    proof {
        assert(tv.take(0) =~= Seq::<Seq<char>>::empty());
        assert(ports_view(r@) =~= tv.take(0).filter_map(f));
    }
    while k < toks.len()
        invariant
            0 <= k <= toks.len(),
            tv == toks.deep_view(),
            ports_view(r@) == tv.take(k as int).filter_map(f),
        decreases toks.len() - k,
    {
        let ghost pre = r@;
        proof {
            assert(toks@[k as int]@ == tv[k as int]);
            tv.lemma_filter_map_take_succ(f, k as int);
        }
        match port_of_token(toks[k].as_str()) {
            Some(port) => {
                r.push(port);
                proof {
                    assert(ports_view(r@) =~= ports_view(pre) + seq![port@]);
                }
            },
            None => {},
        }
        k += 1;
    }
    proof {
        assert(tv.take(toks@.len() as int) =~= tv);
    }
    r
}

} // verus!
