//! Decoding of whole CLI outputs: one JSON object per line for the listing
//! subcommands, a JSON array for inspection, a single JSON object for stats.
//! A malformed line never fails a batch; it is skipped, so a listing with one
//! bad line among many yields exactly the records of the good lines, in line
//! order, every field fixed by the line's text.

use vstd::prelude::*;

use crate::json::{
    check_json_value, json_array_model, json_str_field, json_value_err, json_value_parses,
    parse_json_array_texts, parse_str_field,
};
use crate::ports::{parse_ports, ports_view, spec_parse_ports};
use crate::records::{
    container_from_fields, image_from_fields, spec_repo_tags, spec_size_i64, spec_str_or,
    stats_from_fields, str_or_default, volume_from_fields, Container, Image, StatsRecord, Volume,
};
use crate::size::spec_parse_pair;
use crate::text::{lemma_split_len, spec_split, spec_strip_trailing_char, split_str};
use crate::timefmt::{parse_created_at, spec_parse_timestamp};

verus! {

/// One line as the line iterator reports it: at most one trailing carriage
/// return is removed.
pub open spec fn spec_strip_cr(t: Seq<char>) -> Seq<char> {
    if t.len() > 0 && t.last() == '\r' {
        t.drop_last()
    } else {
        t
    }
}

fn strip_cr<'a>(t: &'a str) -> (r: &'a str)
    ensures
        r@ == spec_strip_cr(t@),
{
    let n = t.unicode_len();
    if n > 0 && t.get_char(n - 1) == '\r' {
        let r = t.substring_char(0, n - 1);
        proof {
            assert(r@ =~= t@.drop_last());
        }
        r
    } else {
        t
    }
}

/// The non-empty lines of a text, in order, with line terminators removed.
pub open spec fn spec_clean_lines(s: Seq<char>) -> Seq<Seq<char>> {
    spec_split(s, "\n"@).filter_map(
        |t: Seq<char>|
            (if spec_strip_cr(t).len() > 0 {
                Some(spec_strip_cr(t))
            } else {
                None::<Seq<char>>
            }),
    )
}

/// Splits a text into its non-empty lines.
#[verifier::loop_isolation(false)]
pub fn clean_lines(s: &str) -> (r: Vec<String>)
    ensures
        r.deep_view() == spec_clean_lines(s@),
{
    proof {
        reveal_strlit("\n");
    }
    let pieces = split_str(s, "\n");
    let ghost pv = pieces.deep_view();
    let ghost f = (|t: Seq<char>|
        (if spec_strip_cr(t).len() > 0 {
            Some(spec_strip_cr(t))
        } else {
            None::<Seq<char>>
        }));
    let mut r: Vec<String> = Vec::new();
    let mut k: usize = 0;
    proof {
        assert(pv.take(0) =~= Seq::<Seq<char>>::empty());
        assert(r.deep_view() =~= pv.take(0).filter_map(f));
    }
    while k < pieces.len()
        invariant
            0 <= k <= pieces.len(),
            pv == pieces.deep_view(),
            r.deep_view() == pv.take(k as int).filter_map(f),
        decreases pieces.len() - k,
    {
        let ghost pre = r.deep_view();
        proof {
            assert(pieces@[k as int]@ == pv[k as int]);
            pv.lemma_filter_map_take_succ(f, k as int);
        }
        let line = strip_cr(pieces[k].as_str());
        if line.unicode_len() > 0 {
            r.push(String::from_str(line));
            proof {
                assert(r.deep_view() =~= pre + seq![line@]);
            }
        }
        k += 1;
    }
    proof {
        assert(pv.take(pieces@.len() as int) =~= pv);
    }
    r
}

/// Which non-empty lines hold well-formed JSON, in order.
pub open spec fn spec_parsing_lines(s: Seq<char>) -> Seq<Seq<char>> {
    spec_clean_lines(s).filter_map(
        |l: Seq<char>|
            (if json_value_parses(l) {
                Some(l)
            } else {
                None::<Seq<char>>
            }),
    )
}

/// The string field of a line under `key`, with `d` as the default.
fn field_or(line: &str, key: &str, d: &str) -> (r: String)
    ensures
        r@ == spec_str_or(json_str_field(line@, key@), d@),
{
    str_or_default(parse_str_field(line, key), d)
}

/// How a container record reflects the JSON line it was decoded from: every
/// string field is the line's matching field or empty, the creation time is
/// the parsed `CreatedAt` field when that field has the fixed timestamp
/// shape, and the ports are the parsed `Ports` field.
pub open spec fn container_of_line(c: Container, line: Seq<char>) -> bool {
    &&& c.id@ == spec_str_or(json_str_field(line, "ID"@), Seq::<char>::empty())
    &&& c.names.deep_view() == seq![
        spec_str_or(json_str_field(line, "Names"@), Seq::<char>::empty()),
    ]
    &&& c.image@ == spec_str_or(json_str_field(line, "Image"@), Seq::<char>::empty())
    &&& c.image_id@ == Seq::<char>::empty()
    &&& c.command@ == spec_str_or(json_str_field(line, "Command"@), Seq::<char>::empty())
    &&& (spec_parse_timestamp(spec_str_or(json_str_field(line, "CreatedAt"@), Seq::<char>::empty()))
        is Some ==> c.created == spec_parse_timestamp(
        spec_str_or(json_str_field(line, "CreatedAt"@), Seq::<char>::empty()),
    )->0)
    &&& ports_view(c.ports@) == spec_parse_ports(
        spec_str_or(json_str_field(line, "Ports"@), Seq::<char>::empty()),
    )
    &&& c.state@ == spec_str_or(json_str_field(line, "State"@), Seq::<char>::empty())
    &&& c.status@ == spec_str_or(json_str_field(line, "Status"@), Seq::<char>::empty())
    &&& c.labels@ == Map::<String, String>::empty()
}

/// Decodes one listing line into a container record; `None` exactly when the
/// line is not well-formed JSON, and the record's fields come from the line.
pub fn decode_container_line(line: &str) -> (r: Option<Container>)
    ensures
        r is Some <==> json_value_parses(line@),
        r is Some ==> container_of_line(r->0, line@),
{
    proof {
        reveal_strlit("");
    }
    match check_json_value(line) {
        Err(_) => None,
        Ok(_) => {
            let created_s = field_or(line, "CreatedAt", "");
            let created = parse_created_at(created_s.as_str());
            let ports_s = field_or(line, "Ports", "");
            let ports = parse_ports(ports_s.as_str());
            Some(
                container_from_fields(
                    parse_str_field(line, "ID"),
                    parse_str_field(line, "Names"),
                    parse_str_field(line, "Image"),
                    parse_str_field(line, "Command"),
                    parse_str_field(line, "State"),
                    parse_str_field(line, "Status"),
                    created,
                    ports,
                ),
            )
        },
    }
}

/// Decodes a `ps` listing: one record per non-empty line of well-formed
/// JSON, in line order, each record's fields fixed by its line; malformed
/// lines are skipped, never failing the batch.
#[verifier::loop_isolation(false)]
pub fn decode_containers(output: &str) -> (r: Vec<Container>)
    ensures
        r@.len() == spec_parsing_lines(output@).len(),
        forall|i: int|
            0 <= i < r@.len() ==> container_of_line(
                #[trigger] r@[i],
                spec_parsing_lines(output@)[i],
            ),
{
    let lines = clean_lines(output);
    let ghost lv = lines.deep_view();
    let ghost f = (|l: Seq<char>|
        (if json_value_parses(l) {
            Some(l)
        } else {
            None::<Seq<char>>
        }));
    let mut r: Vec<Container> = Vec::new();
    let mut k: usize = 0;
    proof {
        assert(lv.take(0) =~= Seq::<Seq<char>>::empty());
    }
    while k < lines.len()
        invariant
            0 <= k <= lines.len(),
            lv == lines.deep_view(),
            r@.len() == lv.take(k as int).filter_map(f).len(),
            forall|i: int|
                0 <= i < r@.len() ==> container_of_line(
                    #[trigger] r@[i],
                    lv.take(k as int).filter_map(f)[i],
                ),
        decreases lines.len() - k,
    {
        let ghost pre = r@;
        let ghost kept = lv.take(k as int).filter_map(f);
        proof {
            assert(lines@[k as int]@ == lv[k as int]);
            lv.lemma_filter_map_take_succ(f, k as int);
        }
        match decode_container_line(lines[k].as_str()) {
            Some(c) => {
                r.push(c);
                proof {
                    assert(lv.take(k as int + 1).filter_map(f) =~= kept + seq![lv[k as int]]);
                    assert(forall|i: int|
                        0 <= i < pre.len() ==> #[trigger] r@[i] == pre[i] && lv.take(
                            k as int + 1,
                        ).filter_map(f)[i] == kept[i]);
                    assert(r@[pre.len() as int] == c);
                    assert(lv.take(k as int + 1).filter_map(f)[pre.len() as int] == lv[k as int]);
                }
            },
            None => {},
        }
        k += 1;
    }
    proof {
        assert(lv.take(lines@.len() as int) =~= lv);
    }
    r
}

/// How an image record reflects the JSON line it was decoded from: the
/// identifier gains its content-addressing prefix, the repo tags follow the
/// `<none>` sentinel rule, the size is the parsed `Size` field, and the
/// creation time is the parsed `CreatedAt` field when it has the fixed shape.
pub open spec fn image_of_line(im: Image, line: Seq<char>) -> bool {
    &&& im.id@ == "sha256:"@ + spec_str_or(json_str_field(line, "ID"@), Seq::<char>::empty())
    &&& im.parent_id@ == Seq::<char>::empty()
    &&& im.repo_tags is Some
    &&& im.repo_tags->0.deep_view() == spec_repo_tags(
        json_str_field(line, "Repository"@),
        json_str_field(line, "Tag"@),
    )
    &&& im.repo_digests is None
    &&& (spec_parse_timestamp(spec_str_or(json_str_field(line, "CreatedAt"@), Seq::<char>::empty()))
        is Some ==> im.created == spec_parse_timestamp(
        spec_str_or(json_str_field(line, "CreatedAt"@), Seq::<char>::empty()),
    )->0)
    &&& im.size == spec_size_i64(spec_str_or(json_str_field(line, "Size"@), "0B"@))
    &&& im.shared_size == 0
    &&& im.virtual_size is None
    &&& im.labels is None
    &&& im.containers == 0
}

/// Decodes one listing line into an image record; `None` exactly when the
/// line is not well-formed JSON, and the record's fields come from the line.
pub fn decode_image_line(line: &str) -> (r: Option<Image>)
    ensures
        r is Some <==> json_value_parses(line@),
        r is Some ==> image_of_line(r->0, line@),
{
    proof {
        reveal_strlit("");
    }
    match check_json_value(line) {
        Err(_) => None,
        Ok(_) => {
            let created_s = field_or(line, "CreatedAt", "");
            let created = parse_created_at(created_s.as_str());
            Some(
                image_from_fields(
                    parse_str_field(line, "ID"),
                    parse_str_field(line, "Repository"),
                    parse_str_field(line, "Tag"),
                    parse_str_field(line, "Size"),
                    created,
                ),
            )
        },
    }
}

/// Decodes an `images` listing: one record per non-empty line of well-formed
/// JSON, in line order, each record's fields fixed by its line; malformed
/// lines are skipped.
#[verifier::loop_isolation(false)]
pub fn decode_images(output: &str) -> (r: Vec<Image>)
    ensures
        r@.len() == spec_parsing_lines(output@).len(),
        forall|i: int|
            0 <= i < r@.len() ==> image_of_line(#[trigger] r@[i], spec_parsing_lines(output@)[i]),
{
    let lines = clean_lines(output);
    let ghost lv = lines.deep_view();
    let ghost f = (|l: Seq<char>|
        (if json_value_parses(l) {
            Some(l)
        } else {
            None::<Seq<char>>
        }));
    let mut r: Vec<Image> = Vec::new();
    let mut k: usize = 0;
    proof {
        assert(lv.take(0) =~= Seq::<Seq<char>>::empty());
    }
    while k < lines.len()
        invariant
            0 <= k <= lines.len(),
            lv == lines.deep_view(),
            r@.len() == lv.take(k as int).filter_map(f).len(),
            forall|i: int|
                0 <= i < r@.len() ==> image_of_line(
                    #[trigger] r@[i],
                    lv.take(k as int).filter_map(f)[i],
                ),
        decreases lines.len() - k,
    {
        let ghost pre = r@;
        let ghost kept = lv.take(k as int).filter_map(f);
        proof {
            assert(lines@[k as int]@ == lv[k as int]);
            lv.lemma_filter_map_take_succ(f, k as int);
        }
        match decode_image_line(lines[k].as_str()) {
            Some(c) => {
                r.push(c);
                proof {
                    assert(lv.take(k as int + 1).filter_map(f) =~= kept + seq![lv[k as int]]);
                    assert(forall|i: int|
                        0 <= i < pre.len() ==> #[trigger] r@[i] == pre[i] && lv.take(
                            k as int + 1,
                        ).filter_map(f)[i] == kept[i]);
                    assert(r@[pre.len() as int] == c);
                    assert(lv.take(k as int + 1).filter_map(f)[pre.len() as int] == lv[k as int]);
                }
            },
            None => {},
        }
        k += 1;
    }
    proof {
        assert(lv.take(lines@.len() as int) =~= lv);
    }
    r
}

/// How a volume record reflects the JSON line it was decoded from: name,
/// driver and mount path default to empty, the scope to `local`, and the
/// richer metadata the compact format omits stays unset.
pub open spec fn volume_of_line(v: Volume, line: Seq<char>) -> bool {
    &&& v.name@ == spec_str_or(json_str_field(line, "Name"@), Seq::<char>::empty())
    &&& v.driver@ == spec_str_or(json_str_field(line, "Driver"@), Seq::<char>::empty())
    &&& v.mountpoint@ == spec_str_or(json_str_field(line, "Mountpoint"@), Seq::<char>::empty())
    &&& v.scope@ == spec_str_or(json_str_field(line, "Scope"@), "local"@)
    &&& v.created_at is None
    &&& v.status is None
    &&& v.labels is None
    &&& v.options is None
    &&& v.usage_data is None
}

/// Decodes one listing line into a volume record; `None` exactly when the
/// line is not well-formed JSON, and the record's fields come from the line.
pub fn decode_volume_line(line: &str) -> (r: Option<Volume>)
    ensures
        r is Some <==> json_value_parses(line@),
        r is Some ==> volume_of_line(r->0, line@),
{
    match check_json_value(line) {
        Err(_) => None,
        Ok(_) => Some(
            volume_from_fields(
                parse_str_field(line, "Name"),
                parse_str_field(line, "Driver"),
                parse_str_field(line, "Mountpoint"),
                parse_str_field(line, "Scope"),
            ),
        ),
    }
}

/// Decodes a `volume ls` listing: one record per non-empty line of
/// well-formed JSON, in line order, each record's fields fixed by its line;
/// malformed lines are skipped.
#[verifier::loop_isolation(false)]
pub fn decode_volumes(output: &str) -> (r: Vec<Volume>)
    ensures
        r@.len() == spec_parsing_lines(output@).len(),
        forall|i: int|
            0 <= i < r@.len() ==> volume_of_line(#[trigger] r@[i], spec_parsing_lines(output@)[i]),
{
    let lines = clean_lines(output);
    let ghost lv = lines.deep_view();
    let ghost f = (|l: Seq<char>|
        (if json_value_parses(l) {
            Some(l)
        } else {
            None::<Seq<char>>
        }));
    let mut r: Vec<Volume> = Vec::new();
    let mut k: usize = 0;
    proof {
        assert(lv.take(0) =~= Seq::<Seq<char>>::empty());
    }
    while k < lines.len()
        invariant
            0 <= k <= lines.len(),
            lv == lines.deep_view(),
            r@.len() == lv.take(k as int).filter_map(f).len(),
            forall|i: int|
                0 <= i < r@.len() ==> volume_of_line(
                    #[trigger] r@[i],
                    lv.take(k as int).filter_map(f)[i],
                ),
        decreases lines.len() - k,
    {
        let ghost pre = r@;
        let ghost kept = lv.take(k as int).filter_map(f);
        proof {
            assert(lines@[k as int]@ == lv[k as int]);
            lv.lemma_filter_map_take_succ(f, k as int);
        }
        match decode_volume_line(lines[k].as_str()) {
            Some(c) => {
                r.push(c);
                proof {
                    assert(lv.take(k as int + 1).filter_map(f) =~= kept + seq![lv[k as int]]);
                    assert(forall|i: int|
                        0 <= i < pre.len() ==> #[trigger] r@[i] == pre[i] && lv.take(
                            k as int + 1,
                        ).filter_map(f)[i] == kept[i]);
                    assert(r@[pre.len() as int] == c);
                    assert(lv.take(k as int + 1).filter_map(f)[pre.len() as int] == lv[k as int]);
                }
            },
            None => {},
        }
        k += 1;
    }
    proof {
        assert(lv.take(lines@.len() as int) =~= lv);
    }
    r
}

/// How a stats record reflects the JSON line it was decoded from: the
/// percentages are the matching fields with trailing `%` signs stripped, and
/// each combined `used / limit` field splits into a pair of parsed sizes.
pub open spec fn stats_of_line(st: StatsRecord, line: Seq<char>) -> bool {
    &&& st.cpu_percent_text@ == spec_strip_trailing_char(
        spec_str_or(json_str_field(line, "CPUPerc"@), "0%"@),
        '%',
    )
    &&& st.memory_percent_text@ == spec_strip_trailing_char(
        spec_str_or(json_str_field(line, "MemPerc"@), "0%"@),
        '%',
    )
    &&& (st.memory_usage, st.memory_limit) == spec_parse_pair(
        spec_str_or(json_str_field(line, "MemUsage"@), "0B / 0B"@),
    )
    &&& (st.network_rx, st.network_tx) == spec_parse_pair(
        spec_str_or(json_str_field(line, "NetIO"@), "0B / 0B"@),
    )
    &&& (st.block_read, st.block_write) == spec_parse_pair(
        spec_str_or(json_str_field(line, "BlockIO"@), "0B / 0B"@),
    )
}

/// Decodes a single-container stats output: the first line must hold
/// well-formed JSON, and then every field of the record is fixed by it;
/// empty output is the distinct "no stats" failure, and a parse failure
/// carries the parse error's rendering.
pub fn decode_stats_output(output: &str) -> (r: Result<StatsRecord, String>)
    ensures
        output@.len() == 0 ==> r is Err && r->Err_0@ == "No stats available"@,
        output@.len() > 0 ==> ({
            let first = spec_strip_cr(spec_split(output@, "\n"@)[0]);
            match json_value_err(first) {
                Some(m) => r is Err && r->Err_0@ == "Failed to parse stats: "@ + m,
                None => r is Ok && stats_of_line(r->Ok_0, first),
            }
        }),
{
    let n = output.unicode_len();
    if n == 0 {
        return Err(String::from_str("No stats available"));
    }
    proof {
        reveal_strlit("\n");
        lemma_split_len(output@, "\n"@);
    }
    let pieces = split_str(output, "\n");
    proof {
        assert(pieces@[0]@ == pieces.deep_view()[0]);
    }
    let first = strip_cr(pieces[0].as_str());
    match check_json_value(first) {
        Err(m) => Err(String::from_str("Failed to parse stats: ").concat(m.as_str())),
        Ok(_) => Ok(
            stats_from_fields(
                parse_str_field(first, "CPUPerc"),
                parse_str_field(first, "MemPerc"),
                parse_str_field(first, "MemUsage"),
                parse_str_field(first, "NetIO"),
                parse_str_field(first, "BlockIO"),
            ),
        ),
    }
}

/// Re-serializes the first element of an inspection result: on a populated
/// well-formed JSON array the call succeeds with exactly the first element's
/// serialized text; an empty array is the distinct "not found" failure; text
/// that is not a JSON array fails with the parse error's rendering.
pub fn inspect_first(output: &str) -> (r: Result<String, String>)
    ensures
        (match json_array_model(output@) {
            Result::Err(m) => r is Err && r->Err_0@ == "Failed to parse inspect output: "@ + m,
            Result::Ok(elems) => {
                if elems.len() == 0 {
                    r is Err && r->Err_0@ == "No container found"@
                } else {
                    r is Ok && r->Ok_0@ == elems[0]
                }
            },
        }),
{
    match parse_json_array_texts(output) {
        Err(m) => Err(String::from_str("Failed to parse inspect output: ").concat(m.as_str())),
        Ok(texts) => {
            if texts.len() == 0 {
                Err(String::from_str("No container found"))
            } else {
                proof {
                    assert(texts@[0]@ == texts.deep_view()[0]);
                }
                Ok(String::from_str(texts[0].as_str()))
            }
        },
    }
}

} // verus!
