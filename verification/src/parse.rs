//! The two listing parsers: one for the native supervisor's output, one for
//! the package manager's. Both skip the header line, split the rest on
//! whitespace, and silently drop lines with too few fields.
use crate::record::{Backend, RecordView, ServiceRecord, views_of_records};
use crate::text::{spec_fields, spec_lines, split_fields, split_lines, views_of_strings};
use vstd::prelude::*;

verus! {

/// The record a native listing line yields: at least three fields, the first
/// being the PID token (`-` meaning none, status derived from its presence),
/// the third the service name.
pub open spec fn native_line_record(line: Seq<char>) -> Option<RecordView> {
    let f = spec_fields(line);
    if f.len() >= 3 {
        if f[0] == "-"@ {
            Some(
                RecordView {
                    name: f[2],
                    status: "stopped"@,
                    pid: None,
                    backend: Backend::Native,
                },
            )
        } else {
            Some(
                RecordView {
                    name: f[2],
                    status: "running"@,
                    pid: Some(f[0]),
                    backend: Backend::Native,
                },
            )
        }
    } else {
        None
    }
}

/// Whether a native record passes the optional only-running filter.
pub open spec fn native_kept(r: RecordView, running_only: bool) -> bool {
    !running_only || r.status == "running"@
}

/// The records of the native listing's body lines, in order.
pub open spec fn native_records(lines: Seq<Seq<char>>, running_only: bool) -> Seq<RecordView>
    decreases lines.len(),
{
    if lines.len() == 0 {
        Seq::empty()
    } else {
        let rest = native_records(lines.drop_last(), running_only);
        match native_line_record(lines.last()) {
            Some(r) => if native_kept(r, running_only) {
                rest.push(r)
            } else {
                rest
            },
            None => rest,
        }
    }
}

/// What the native parser yields on a whole listing: the records of every
/// line after the header.
pub open spec fn spec_parse_native(text: Seq<char>, running_only: bool) -> Seq<RecordView> {
    let ls = spec_lines(text);
    if ls.len() == 0 {
        Seq::empty()
    } else {
        native_records(ls.skip(1), running_only)
    }
}

/// The record a package-manager listing line yields: at least two fields, the
/// first the name, the second the status token passed through unmodified.
pub open spec fn package_line_record(line: Seq<char>) -> Option<RecordView> {
    let f = spec_fields(line);
    if f.len() >= 2 {
        Some(
            RecordView {
                name: f[0],
                status: f[1],
                pid: None,
                backend: Backend::PackageManager,
            },
        )
    } else {
        None
    }
}

/// Whether a package-manager record passes the optional filter: an exact
/// match on the token `started`, nothing broader.
pub open spec fn package_kept(r: RecordView, running_only: bool) -> bool {
    !running_only || r.status == "started"@
}

/// The records of the package-manager listing's body lines, in order.
pub open spec fn package_records(lines: Seq<Seq<char>>, running_only: bool) -> Seq<RecordView>
    decreases lines.len(),
{
    if lines.len() == 0 {
        Seq::empty()
    } else {
        let rest = package_records(lines.drop_last(), running_only);
        match package_line_record(lines.last()) {
            Some(r) => if package_kept(r, running_only) {
                rest.push(r)
            } else {
                rest
            },
            None => rest,
        }
    }
}

/// What the package-manager parser yields on a whole listing.
pub open spec fn spec_parse_package(text: Seq<char>, running_only: bool) -> Seq<RecordView> {
    let ls = spec_lines(text);
    if ls.len() == 0 {
        Seq::empty()
    } else {
        package_records(ls.skip(1), running_only)
    }
}

/// Parses the native supervisor's listing output.
pub fn parse_native_listing(text: &str, running_only: bool) -> (r: Vec<ServiceRecord>)
    ensures
        views_of_records(r@) == spec_parse_native(text@, running_only),
{
    let lines = split_lines(text);
    let mut r: Vec<ServiceRecord> = Vec::new();
    let ghost body: Seq<Seq<char>> = spec_lines(text@).skip(1);
    if lines.len() == 0 {
        proof {
            assert(views_of_records(r@) =~= spec_parse_native(text@, running_only));
        }
        return r;
    }
    let mut i: usize = 1;
    proof {
        assert(body.take(0) =~= Seq::<Seq<char>>::empty());
        assert(views_of_records(r@) =~= Seq::<RecordView>::empty());
    }
    while i < lines.len()
        invariant
            1 <= i <= lines@.len(),
            views_of_strings(lines@) == spec_lines(text@),
            body == spec_lines(text@).skip(1),
            views_of_records(r@) == native_records(body.take(i - 1), running_only),
        decreases lines@.len() - i,
    {
        let ghost prev = r@;
        let line: &String = &lines[i];
        proof {
            assert(line@ == views_of_strings(lines@)[i as int]);
            assert(body[i - 1] == line@);
        }
        let fields = split_fields(line.as_str());
        proof {
            reveal_strlit("stopped");
            reveal_strlit("running");
            assert("stopped"@[0] == 's' && "running"@[0] == 'r');
        }
        if fields.len() >= 3 {
            proof {
                assert(fields@[0]@ == spec_fields(line@)[0]);
                assert(fields@[2]@ == spec_fields(line@)[2]);
            }
            let not_running = fields[0] == String::from_str("-");
            if !running_only || !not_running {
                let pid: Option<String> = if not_running {
                    None
                } else {
                    Some(fields[0].clone())
                };
                let status: String = if not_running {
                    String::from_str("stopped")
                } else {
                    String::from_str("running")
                };
                let rec = ServiceRecord {
                    name: fields[2].clone(),
                    status,
                    pid,
                    backend: Backend::Native,
                };
                proof {
                    assert(Some(rec@) =~= native_line_record(line@));
                }
                r.push(rec);
                proof {
                    assert(views_of_records(r@) =~= views_of_records(prev).push(rec@));
                }
            }
        }
        proof {
            let t = body.take(i as int);
            assert(t.drop_last() =~= body.take(i - 1));
            assert(t.last() == body[i - 1]);
        }
        i = i + 1;
    }
    proof {
        assert(body.take(lines@.len() - 1) =~= body);
    }
    r
}

/// Parses the package-manager supervisor's listing output.
pub fn parse_package_listing(text: &str, running_only: bool) -> (r: Vec<ServiceRecord>)
    ensures
        views_of_records(r@) == spec_parse_package(text@, running_only),
{
    let lines = split_lines(text);
    let mut r: Vec<ServiceRecord> = Vec::new();
    let ghost body: Seq<Seq<char>> = spec_lines(text@).skip(1);
    if lines.len() == 0 {
        proof {
            assert(views_of_records(r@) =~= spec_parse_package(text@, running_only));
        }
        return r;
    }
    let mut i: usize = 1;
    proof {
        assert(body.take(0) =~= Seq::<Seq<char>>::empty());
        assert(views_of_records(r@) =~= Seq::<RecordView>::empty());
    }
    while i < lines.len()
        invariant
            1 <= i <= lines@.len(),
            views_of_strings(lines@) == spec_lines(text@),
            body == spec_lines(text@).skip(1),
            views_of_records(r@) == package_records(body.take(i - 1), running_only),
        decreases lines@.len() - i,
    {
        let ghost prev = r@;
        let line: &String = &lines[i];
        proof {
            assert(line@ == views_of_strings(lines@)[i as int]);
            assert(body[i - 1] == line@);
        }
        let fields = split_fields(line.as_str());
        if fields.len() >= 2 {
            proof {
                assert(fields@[0]@ == spec_fields(line@)[0]);
                assert(fields@[1]@ == spec_fields(line@)[1]);
            }
            let keep = !running_only || fields[1] == String::from_str("started");
            if keep {
                let rec = ServiceRecord {
                    name: fields[0].clone(),
                    status: fields[1].clone(),
                    pid: None,
                    backend: Backend::PackageManager,
                };
                proof {
                    assert(Some(rec@) =~= package_line_record(line@));
                }
                r.push(rec);
                proof {
                    assert(views_of_records(r@) =~= views_of_records(prev).push(rec@));
                }
            }
        }
        proof {
            let t = body.take(i as int);
            assert(t.drop_last() =~= body.take(i - 1));
            assert(t.last() == body[i - 1]);
        }
        i = i + 1;
    }
    proof {
        assert(body.take(lines@.len() - 1) =~= body);
    }
    r
}

/// What a single native listing line yields: fewer than three fields, no
/// record; a `-` PID token, a stopped record without a PID; any other PID
/// token, a running record carrying that token verbatim.
pub proof fn lemma_native_line_cases(line: Seq<char>)
    ensures
        spec_fields(line).len() < 3 ==> native_line_record(line) is None,
        spec_fields(line).len() >= 3 && spec_fields(line)[0] == "-"@ ==> native_line_record(line)
            == Some(
            RecordView {
                name: spec_fields(line)[2],
                status: "stopped"@,
                pid: None,
                backend: Backend::Native,
            },
        ),
        spec_fields(line).len() >= 3 && spec_fields(line)[0] != "-"@ ==> native_line_record(line)
            == Some(
            RecordView {
                name: spec_fields(line)[2],
                status: "running"@,
                pid: Some(spec_fields(line)[0]),
                backend: Backend::Native,
            },
        ),
{
}

/// What a single package-manager listing line yields: fewer than two fields,
/// no record; otherwise the first field as name and the second as status,
/// never a PID.
pub proof fn lemma_package_line_cases(line: Seq<char>)
    ensures
        spec_fields(line).len() < 2 ==> package_line_record(line) is None,
        spec_fields(line).len() >= 2 ==> package_line_record(line) == Some(
            RecordView {
                name: spec_fields(line)[0],
                status: spec_fields(line)[1],
                pid: None,
                backend: Backend::PackageManager,
            },
        ),
{
}

/// The package-manager filter keeps exactly the records whose status token is
/// `started`: filtering while parsing equals parsing unfiltered and then
/// keeping the exact matches.
pub proof fn lemma_package_filter(lines: Seq<Seq<char>>)
    ensures
        package_records(lines, true) == package_records(lines, false).filter(
            (|r: RecordView| r.status == "started"@),
        ),
    decreases lines.len(),
{
    reveal(Seq::filter);
    let pred = (|r: RecordView| r.status == "started"@);
    if lines.len() == 0 {
        assert(package_records(lines, false).filter(pred) =~= Seq::<RecordView>::empty());
    } else {
        lemma_package_filter(lines.drop_last());
        let rest_all = package_records(lines.drop_last(), false);
        match package_line_record(lines.last()) {
            Some(r) => {
                let s = rest_all.push(r);
                assert(s.len() == rest_all.len() + 1);
                assert(s.drop_last() =~= rest_all);
                assert(s.last() == r);
                assert(s.filter(pred) == if pred(r) {
                    rest_all.filter(pred).push(r)
                } else {
                    rest_all.filter(pred)
                });
            },
            None => {},
        }
    }
}

} // verus!
