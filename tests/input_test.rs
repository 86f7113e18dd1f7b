use std::io::{BufRead, BufReader, Cursor, Error, ErrorKind, Read};

use arg_input::{is_stdin_arg, resolve, ChainCursor, Resolved};

const INPUTS: [&str; 5] = ["A", "B", "C", "D", "E"];
const NONEXISTENT: [&str; 3] = ["Z", "Y", "X"];
const STDIN_TEXT: &str = "from stdin\n";

/// Opens one of the named in-memory files; anything else is not found. `-` must
/// never reach it.
fn open_mem(path: &String) -> Result<Cursor<Vec<u8>>, Error> {
    assert_ne!(path, "-");
    if INPUTS.contains(&path.as_str()) {
        Ok(Cursor::new(format!("{}\n", path).into_bytes()))
    } else {
        Err(Error::new(ErrorKind::NotFound, format!("no file {}", path)))
    }
}

fn args(names: &[&str]) -> Vec<String> {
    names.iter().map(|s| s.to_string()).collect()
}

/// A chained reader over in-memory handles, driven by the cursor.
struct MemChain {
    handles: Vec<Cursor<Vec<u8>>>,
    cursor: ChainCursor,
}

impl MemChain {
    fn new(resolved: Vec<Resolved<Cursor<Vec<u8>>>>) -> MemChain {
        let handles: Vec<Cursor<Vec<u8>>> = resolved
            .into_iter()
            .map(|r| match r {
                Resolved::Stdin => Cursor::new(STDIN_TEXT.as_bytes().to_vec()),
                Resolved::Opened(h) => h,
            })
            .collect();
        let cursor = ChainCursor::new(handles.len());
        MemChain { handles, cursor }
    }
}

impl Read for MemChain {
    fn read(&mut self, buf: &mut [u8]) -> std::io::Result<usize> {
        while let Some(i) = self.cursor.source() {
            let got = self.handles[i].read(buf)?;
            if self.cursor.after_read(buf.len(), got) {
                return Ok(got);
            }
        }
        Ok(0)
    }
}

fn chain_of(names: &[&str]) -> MemChain {
    MemChain::new(resolve(&args(names), open_mem).ok().unwrap())
}

#[test]
fn input_test_test_input() {
    let mut all_input = chain_of(&INPUTS);
    let mut result_string = String::new();
    let mut comparison_string = String::new();
    for contents in INPUTS.iter() {
        comparison_string += contents;
        comparison_string += "\n";
    }
    let result = all_input.read_to_string(&mut result_string);
    assert!(result.is_ok());
    assert_eq!(result_string, comparison_string);
}

#[test]
fn input_lines_test_test_input() {
    let lines = BufReader::new(chain_of(&INPUTS)).lines();
    let mut count = 0;
    for (i, line) in lines.enumerate() {
        assert!(line.is_ok());
        assert_eq!(&line.unwrap(), INPUTS[i]);
        count += 1;
    }
    assert_eq!(count, INPUTS.len());
}

#[test]
fn test_input_nonexistent() {
    let r = resolve(&args(&NONEXISTENT), open_mem);
    assert!(r.is_err());
}

#[test]
fn test_input_lines_nonexistent() {
    match resolve(&args(&NONEXISTENT), open_mem) {
        Ok(_) => panic!("input_lines() should not have found these files"),
        Err(errs) => assert_eq!(errs.len(), NONEXISTENT.len()),
    }
}

#[test]
fn empty_arguments_resolve_to_stdin_alone() {
    let r = resolve(&Vec::new(), |_p: &String| -> Result<Cursor<Vec<u8>>, Error> {
        panic!("nothing is opened when there are no arguments")
    });
    let v = r.ok().unwrap();
    assert_eq!(v.len(), 1);
    assert!(matches!(v[0], Resolved::Stdin));
}

#[test]
fn small_reads_cross_file_borders_intact() {
    let mut chain = chain_of(&["A", "B", "C"]);
    let mut out = Vec::new();
    let mut buf = [0u8; 1];
    loop {
        let n = chain.read(&mut buf).unwrap();
        if n == 0 {
            break;
        }
        out.extend_from_slice(&buf[..n]);
    }
    assert_eq!(out, b"A\nB\nC\n".to_vec());
}

#[test]
fn failures_name_each_bad_path_in_order() {
    let e = match resolve(&args(&["Z", "A", "Y", "B", "X"]), open_mem) {
        Ok(_) => panic!("three of the files are missing"),
        Err(e) => e,
    };
    let names: Vec<String> = e.badfiles.iter().map(|f| f.filename.clone()).collect();
    assert_eq!(names, args(&["Z", "Y", "X"]));
    assert!(e.badfiles.iter().all(|f| f.inner.kind() == ErrorKind::NotFound));
}

#[test]
fn bad_path_after_good_ones_still_fails() {
    let e = resolve(&args(&["A", "B", "Q"]), open_mem).err().unwrap();
    assert_eq!(e.len(), 1);
    assert_eq!(e.badfiles[0].filename, "Q");
}

#[test]
fn dash_anywhere_resolves_to_stdin() {
    let v = resolve(&args(&["A", "-", "B", "-"]), open_mem).ok().unwrap();
    assert_eq!(v.len(), 4);
    assert!(matches!(v[0], Resolved::Opened(_)));
    assert!(matches!(v[1], Resolved::Stdin));
    assert!(matches!(v[2], Resolved::Opened(_)));
    assert!(matches!(v[3], Resolved::Stdin));
    let mut text = String::new();
    MemChain::new(v).read_to_string(&mut text).unwrap();
    assert_eq!(text, "A\nfrom stdin\nB\nfrom stdin\n");
}

#[test]
fn only_a_lone_dash_is_stdin() {
    assert!(is_stdin_arg(&"-".to_string()));
    assert!(!is_stdin_arg(&"--".to_string()));
    assert!(!is_stdin_arg(&"".to_string()));
    assert!(!is_stdin_arg(&"-a".to_string()));
    assert!(!is_stdin_arg(&"a".to_string()));
}

#[test]
fn exhausted_chain_yields_nothing_more() {
    let mut chain = chain_of(&["A", "B"]);
    let mut text = String::new();
    chain.read_to_string(&mut text).unwrap();
    assert_eq!(text, "A\nB\n");
    let mut buf = [0u8; 8];
    assert_eq!(chain.read(&mut buf).unwrap(), 0);
    assert_eq!(chain.read(&mut buf).unwrap(), 0);
    assert!(chain.cursor.is_exhausted());
    assert_eq!(chain.cursor.source(), None);
}

#[test]
fn cursor_moves_on_only_at_end_of_stream() {
    let mut c = ChainCursor::new(2);
    assert_eq!(c.source(), Some(0));
    assert!(c.after_read(0, 0));
    assert_eq!(c.source(), Some(0));
    assert!(c.after_read(4, 3));
    assert_eq!(c.source(), Some(0));
    assert!(!c.after_read(4, 0));
    assert_eq!(c.source(), Some(1));
    assert!(!c.after_read(4, 0));
    assert_eq!(c.source(), None);
    assert!(c.is_exhausted());
}

#[test]
fn cursor_over_no_handles_is_exhausted() {
    let c = ChainCursor::new(0);
    assert!(c.is_exhausted());
    assert_eq!(c.source(), None);
}
