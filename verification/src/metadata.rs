//! The sandbox's metadata report: a line-oriented `key:value` file parsed
//! into a typed record.
//!
//! A line without a `:`, with an empty value, or with an unrecognized key is
//! skipped.  A recognized key whose value does not parse at its type is a
//! fatal error: it means the sandbox tool's interface has drifted.  The two
//! time fields keep their validated decimal text, since the library does no
//! arithmetic on them.

use vstd::prelude::*;
use crate::bytes::{
    ascii_bytes, dec_value, find_byte, int_value, is_fraction, is_fraction_bytes, is_int_bytes,
    nonempty_digits, parse_i32, parse_u64, str_bytes, sub_bytes, find_byte_index, bytes_eq,
};

verus! {

/// Resource usage and termination report of one sandboxed execution.
#[derive(Debug, Clone)]
pub struct IsolateMetadata {
    /// CPU time in seconds, as decimal text.
    pub time: Option<Vec<u8>>,
    /// Wall-clock time in seconds, as decimal text.
    pub time_wall: Option<Vec<u8>>,
    /// Maximum resident set size, in KB.
    pub max_rss: Option<u64>,
    pub csw_voluntary: Option<u64>,
    pub csw_forced: Option<u64>,
    /// Control-group memory usage, in KB.
    pub cg_mem: Option<u64>,
    /// Exit code the sandboxed program returned.
    pub exit_code: Option<i32>,
    /// The sandbox's termination classification, e.g. `TO` or `SG`.
    pub status: Option<Vec<u8>>,
}

/// The abstract content of an [`IsolateMetadata`] record.
pub struct SpecMetadata {
    pub time: Option<Seq<u8>>,
    pub time_wall: Option<Seq<u8>>,
    pub max_rss: Option<u64>,
    pub csw_voluntary: Option<u64>,
    pub csw_forced: Option<u64>,
    pub cg_mem: Option<u64>,
    pub exit_code: Option<i32>,
    pub status: Option<Seq<u8>>,
}

impl SpecMetadata {
    pub open spec fn spec_empty() -> SpecMetadata {
        SpecMetadata {
            time: None,
            time_wall: None,
            max_rss: None,
            csw_voluntary: None,
            csw_forced: None,
            cg_mem: None,
            exit_code: None,
            status: None,
        }
    }
}

impl View for IsolateMetadata {
    type V = SpecMetadata;

    open spec fn view(&self) -> SpecMetadata {
        SpecMetadata {
            time: match self.time {
                Some(v) => Some(v@),
                None => None,
            },
            time_wall: match self.time_wall {
                Some(v) => Some(v@),
                None => None,
            },
            max_rss: self.max_rss,
            csw_voluntary: self.csw_voluntary,
            csw_forced: self.csw_forced,
            cg_mem: self.cg_mem,
            exit_code: self.exit_code,
            status: match self.status {
                Some(v) => Some(v@),
                None => None,
            },
        }
    }
}

/// A line before a `\n` loses one trailing `\r`; the final line keeps it.
pub open spec fn strip_cr(l: Seq<u8>) -> Seq<u8> {
    if l.len() > 0 && l.last() == 13 {
        l.drop_last()
    } else {
        l
    }
}

/// The lines of `s`, separated by `\n` (tolerating `\r\n`), without a
/// trailing empty line.
pub open spec fn spec_lines(s: Seq<u8>) -> Seq<Seq<u8>>
    decreases s.len(),
    via spec_lines_decreases
{
    if s.len() == 0 {
        Seq::empty()
    } else {
        match find_byte(s, 10) {
            Some(i) => seq![strip_cr(s.subrange(0, i))] + spec_lines(
                s.subrange(i + 1, s.len() as int),
            ),
            None => seq![s],
        }
    }
}

#[via_fn]
proof fn spec_lines_decreases(s: Seq<u8>) {
    crate::bytes::lemma_find_byte(s, 10);
}

/// The value part of a metadata line: what stands between the first `:` and
/// the next `:` or the end of the line.
pub open spec fn line_value(rest: Seq<u8>) -> Seq<u8> {
    match find_byte(rest, 58) {
        Some(j) => rest.subrange(0, j),
        None => rest,
    }
}

/// Applies one metadata line to the record built so far.  `Err` marks a
/// recognized key whose value does not parse.
pub open spec fn apply_line(m: SpecMetadata, line: Seq<u8>) -> Result<SpecMetadata, ()> {
    match find_byte(line, 58) {
        None => Ok(m),
        Some(i) => {
            let key = line.subrange(0, i);
            let value = line_value(line.subrange(i + 1, line.len() as int));
            if value.len() == 0 {
                Ok(m)
            } else if key == ascii_bytes("time"@) {
                if is_fraction_bytes(value) {
                    Ok(SpecMetadata { time: Some(value), ..m })
                } else {
                    Err(())
                }
            } else if key == ascii_bytes("time-wall"@) {
                if is_fraction_bytes(value) {
                    Ok(SpecMetadata { time_wall: Some(value), ..m })
                } else {
                    Err(())
                }
            } else if key == ascii_bytes("max-rss"@) {
                if nonempty_digits(value) && dec_value(value) <= u64::MAX {
                    Ok(SpecMetadata { max_rss: Some(dec_value(value) as u64), ..m })
                } else {
                    Err(())
                }
            } else if key == ascii_bytes("csw-voluntary"@) {
                if nonempty_digits(value) && dec_value(value) <= u64::MAX {
                    Ok(SpecMetadata { csw_voluntary: Some(dec_value(value) as u64), ..m })
                } else {
                    Err(())
                }
            } else if key == ascii_bytes("csw-forced"@) {
                if nonempty_digits(value) && dec_value(value) <= u64::MAX {
                    Ok(SpecMetadata { csw_forced: Some(dec_value(value) as u64), ..m })
                } else {
                    Err(())
                }
            } else if key == ascii_bytes("cg-mem"@) {
                if nonempty_digits(value) && dec_value(value) <= u64::MAX {
                    Ok(SpecMetadata { cg_mem: Some(dec_value(value) as u64), ..m })
                } else {
                    Err(())
                }
            } else if key == ascii_bytes("exitcode"@) {
                if is_int_bytes(value) && i32::MIN <= int_value(value) <= i32::MAX {
                    Ok(SpecMetadata { exit_code: Some(int_value(value) as i32), ..m })
                } else {
                    Err(())
                }
            } else if key == ascii_bytes("status"@) {
                Ok(SpecMetadata { status: Some(value), ..m })
            } else {
                Ok(m)
            }
        },
    }
}

/// Folds [`apply_line`] over a sequence of lines.
pub open spec fn fold_lines(lines: Seq<Seq<u8>>, m: SpecMetadata) -> Result<SpecMetadata, ()>
    decreases lines.len(),
{
    if lines.len() == 0 {
        Ok(m)
    } else {
        match apply_line(m, lines[0]) {
            Ok(m2) => fold_lines(lines.drop_first(), m2),
            Err(e) => Err(e),
        }
    }
}

/// What parsing a whole metadata file yields.
pub open spec fn spec_parse_metadata(s: Seq<u8>) -> Result<SpecMetadata, ()> {
    fold_lines(spec_lines(s), SpecMetadata::spec_empty())
}

/// A recognized metadata key whose value did not parse at its type.
#[derive(Debug, Clone)]
pub struct MetadataError {
    /// The offending line.
    pub line: Vec<u8>,
}

impl Default for IsolateMetadata {
    /// The record with nothing reported yet.
    fn default() -> (r: IsolateMetadata)
        ensures
            r@ == SpecMetadata::spec_empty(),
    {
        IsolateMetadata {
            time: None,
            time_wall: None,
            max_rss: None,
            csw_voluntary: None,
            csw_forced: None,
            cg_mem: None,
            exit_code: None,
            status: None,
        }
    }
}

impl IsolateMetadata {
    /// Parses the sandbox's metadata file.
    pub fn parse(text: &[u8]) -> (r: Result<IsolateMetadata, MetadataError>)
        ensures
            match r {
                Ok(m) => spec_parse_metadata(text@) == Ok::<SpecMetadata, ()>(m@),
                Err(_) => spec_parse_metadata(text@) is Err,
            },
    {
        let n: usize = text.len();
        let mut meta = IsolateMetadata::default();
        let mut pos: usize = 0;
        proof {
            assert(text@.subrange(0, n as int) =~= text@);
        }
        while pos < n
            invariant
                pos <= n,
                n == text@.len(),
                spec_parse_metadata(text@) == fold_lines(
                    spec_lines(text@.subrange(pos as int, n as int)),
                    meta@,
                ),
            decreases n - pos,
        {
            let ghost rest = text@.subrange(pos as int, n as int);
            let (line_end, next_pos) = match find_byte_from(text, pos, 10) {
                Some(j) => (j, j + 1),
                None => (n, n),
            };
            let had_newline = next_pos != line_end;
            // Drop a `\r` just before the newline.
            let stripped_end = if had_newline && line_end > pos && text[line_end - 1] == 13 {
                line_end - 1
            } else {
                line_end
            };
            let line = sub_bytes(text, pos, stripped_end);
            proof {
                if had_newline {
                    let j = line_end as int;
                    assert(rest[j - pos] == text@[j]);
                    assert(find_byte(rest, 10) == Some(j - pos as int)) by {
                        lemma_find_byte_shift(text@, pos as int, 10, j - pos);
                    }
                    assert(rest.subrange(0, j - pos) =~= text@.subrange(pos as int, j));
                    assert(strip_cr(text@.subrange(pos as int, j)) =~= line@);
                    assert(rest.subrange(j - pos + 1, rest.len() as int) =~= text@.subrange(
                        next_pos as int,
                        n as int,
                    ));
                    assert(spec_lines(rest) == seq![line@] + spec_lines(
                        text@.subrange(next_pos as int, n as int),
                    ));
                } else {
                    lemma_find_byte_shift_none(text@, pos as int, 10);
                    assert(rest =~= line@);
                    assert(spec_lines(rest) == seq![line@]);
                    assert(spec_lines(text@.subrange(n as int, n as int)) =~= Seq::<
                        Seq<u8>,
                    >::empty());
                }
                assert(spec_lines(rest).drop_first() =~= spec_lines(
                    text@.subrange(next_pos as int, n as int),
                ));
                assert(spec_lines(rest)[0] == line@);
            }
            let ok = apply_line_exec(&mut meta, line.as_slice());
            if !ok {
                return Err(MetadataError { line });
            }
            pos = next_pos;
        }
        proof {
            assert(text@.subrange(pos as int, n as int) =~= Seq::<u8>::empty());
        }
        Ok(meta)
    }
}

/// `find_byte` on a suffix: a hit at offset `j` within the suffix.
proof fn lemma_find_byte_shift(s: Seq<u8>, from: int, b: u8, j: int)
    requires
        0 <= from,
        0 <= j,
        from + j < s.len(),
        s[from + j] == b,
        forall|k: int| from <= k < from + j ==> s[k] != b,
    ensures
        find_byte(s.subrange(from, s.len() as int), b) == Some(j),
{
    let rest = s.subrange(from, s.len() as int);
    crate::bytes::lemma_find_byte(rest, b);
    assert(rest[j] == b);
    match find_byte(rest, b) {
        Some(i) => {
            if i < j {
                assert(s[from + i] == rest[i]);
            }
            if i > j {
                assert(rest[j] != b);
            }
        },
        None => {
            assert(rest[j] == b);
        },
    }
}

proof fn lemma_find_byte_shift_none(s: Seq<u8>, from: int, b: u8)
    requires
        0 <= from <= s.len(),
        forall|k: int| from <= k < s.len() ==> s[k] != b,
    ensures
        find_byte(s.subrange(from, s.len() as int), b) is None,
{
    let rest = s.subrange(from, s.len() as int);
    crate::bytes::lemma_find_byte(rest, b);
    match find_byte(rest, b) {
        Some(i) => {
            assert(s[from + i] == rest[i]);
        },
        None => {},
    }
}

/// Searches for `b` in `s` at or after position `from`.
pub fn find_byte_from(s: &[u8], from: usize, b: u8) -> (r: Option<usize>)
    requires
        from <= s@.len(),
    ensures
        match r {
            Some(j) => from <= j < s@.len() && s@[j as int] == b && forall|k: int|
                from <= k < j ==> s@[k] != b,
            None => forall|k: int| from <= k < s@.len() ==> s@[k] != b,
        },
{
    let n: usize = s.len();
    let mut i: usize = from;
    while i < n
        invariant
            from <= i <= n,
            n == s@.len(),
            forall|k: int| from <= k < i ==> s@[k] != b,
        decreases n - i,
    {
        if s[i] == b {
            return Some(i);
        }
        i = i + 1;
    }
    None
}

/// Applies one line to the record; `false` reports a recognized key whose
/// value does not parse.
fn apply_line_exec(meta: &mut IsolateMetadata, line: &[u8]) -> (ok: bool)
    ensures
        match apply_line(old(meta)@, line@) {
            Ok(m2) => ok && final(meta)@ == m2,
            Err(_) => !ok,
        },
{
    let colon = match find_byte_index(line, 58) {
        Some(i) => i,
        None => {
            return true;
        },
    };
    proof {
        crate::bytes::lemma_find_byte(line@, 58);
    }
    let n: usize = line.len();
    let rest = sub_bytes(line, colon + 1, n);
    let ghost rest_view = rest@;
    let found = find_byte_index(rest.as_slice(), 58);
    proof {
        crate::bytes::lemma_find_byte(rest_view, 58);
    }
    let value = match found {
        Some(j) => sub_bytes(rest.as_slice(), 0, j),
        None => rest,
    };
    proof {
        assert(value@ == line_value(line@.subrange(colon + 1, line@.len() as int)));
    }
    if value.len() == 0 {
        return true;
    }
    let key = sub_bytes(line, 0, colon);
    proof {
        reveal_strlit("time");
        reveal_strlit("time-wall");
        reveal_strlit("max-rss");
        reveal_strlit("csw-voluntary");
        reveal_strlit("csw-forced");
        reveal_strlit("cg-mem");
        reveal_strlit("exitcode");
        reveal_strlit("status");
    }
    if bytes_eq(key.as_slice(), str_bytes("time").as_slice()) {
        if is_fraction(value.as_slice()) {
            meta.time = Some(value);
            true
        } else {
            false
        }
    } else if bytes_eq(key.as_slice(), str_bytes("time-wall").as_slice()) {
        if is_fraction(value.as_slice()) {
            meta.time_wall = Some(value);
            true
        } else {
            false
        }
    } else if bytes_eq(key.as_slice(), str_bytes("max-rss").as_slice()) {
        match parse_u64(value.as_slice()) {
            Some(v) => {
                meta.max_rss = Some(v);
                true
            },
            None => false,
        }
    } else if bytes_eq(key.as_slice(), str_bytes("csw-voluntary").as_slice()) {
        match parse_u64(value.as_slice()) {
            Some(v) => {
                meta.csw_voluntary = Some(v);
                true
            },
            None => false,
        }
    } else if bytes_eq(key.as_slice(), str_bytes("csw-forced").as_slice()) {
        match parse_u64(value.as_slice()) {
            Some(v) => {
                meta.csw_forced = Some(v);
                true
            },
            None => false,
        }
    } else if bytes_eq(key.as_slice(), str_bytes("cg-mem").as_slice()) {
        match parse_u64(value.as_slice()) {
            Some(v) => {
                meta.cg_mem = Some(v);
                true
            },
            None => false,
        }
    } else if bytes_eq(key.as_slice(), str_bytes("exitcode").as_slice()) {
        match parse_i32(value.as_slice()) {
            Some(v) => {
                meta.exit_code = Some(v);
                true
            },
            None => false,
        }
    } else if bytes_eq(key.as_slice(), str_bytes("status").as_slice()) {
        meta.status = Some(value);
        true
    } else {
        true
    }
}

} // verus!
