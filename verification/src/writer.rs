//! Builds the run's report as a sequence of plain text lines.
//!
//! The original report goes to a terminal; here the writer owns the
//! produced lines and a caller outside the library prints them.  Every
//! method pins the exact text it appends.

use vstd::prelude::*;
use vstd::string::StringExecFns;

use crate::command::spec_directory_for;
use crate::dir_helpers::{DirInfo, grouped_decimal, BYTES_PER_MB};
use crate::text::{pad_left, pad_left_spec};
use crate::wipe_params::WipeParams;

verus! {

pub const SPACING_FILES: usize = 12;

pub const SPACING_SIZE: usize = 18;

pub const SPACING_PATH: usize = 9;

/// A four-column line: the first three columns right-aligned to the
/// fixed widths, the last free.
pub open spec fn spec_spaced_line(
    c1: Seq<char>,
    c2: Seq<char>,
    c3: Seq<char>,
    c4: Seq<char>,
) -> Seq<char> {
    pad_left_spec(c1, SPACING_FILES as nat) + pad_left_spec(c2, SPACING_SIZE as nat)
        + pad_left_spec(c3, SPACING_PATH as nat) + c4
}

/// The header line: the mode tag and what is searched where.
pub open spec fn spec_header_line(params: WipeParams) -> Seq<char> {
    (if params.wipe {
        "[WIPING]"@
    } else {
        "[DRY RUN]"@
    }) + " Recursively searching for all \""@ + spec_directory_for(params.language).spec_name()
        + "\" folders in "@ + params.path@ + "..."@
}

/// The column header of the per-path listing.
pub open spec fn spec_content_header_lines() -> Seq<Seq<char>> {
    seq![
        Seq::<char>::empty(),
        spec_spaced_line("Files #"@, "Size (MB)"@, Seq::<char>::empty(), "Path"@),
    ]
}

/// One candidate's line: its counts (or question marks when the
/// statistics are unavailable), its path, and the ignore or error
/// marker.
pub open spec fn spec_content_line(
    path: Seq<char>,
    info: Option<DirInfo>,
    ignored: bool,
    error: Option<Seq<char>>,
) -> Seq<char> {
    (match info {
        Some(di) => spec_spaced_line(
            grouped_decimal(di.file_count as int),
            grouped_decimal((di.size / BYTES_PER_MB) as int),
            Seq::<char>::empty(),
            path,
        ),
        None => spec_spaced_line("?"@, "?"@, Seq::<char>::empty(), path),
    }) + (if ignored {
        " [Ignored]"@
    } else {
        Seq::<char>::empty()
    }) + (match error {
        Some(e) => " ["@ + e + "]"@,
        None => Seq::<char>::empty(),
    })
}

/// The summary block: nothing was found, or the before, ignored,
/// wiped and after rows.
pub open spec fn spec_summary_lines(
    params: WipeParams,
    wipe_info: DirInfo,
    ignore_info: DirInfo,
    previous_info: Option<DirInfo>,
) -> Seq<Seq<char>> {
    seq![Seq::<char>::empty()] + (match previous_info {
        Some(previous) => {
            let after_files = (previous.file_count - wipe_info.file_count) as usize;
            let after_size = (previous.size - wipe_info.size) as usize;
            seq![
                spec_spaced_line("Files #"@, "Size (MB)"@, Seq::<char>::empty(), params.path@),
                spec_spaced_line(
                    grouped_decimal(previous.file_count as int),
                    grouped_decimal((previous.size / BYTES_PER_MB) as int),
                    Seq::<char>::empty(),
                    if params.wipe {
                        "Previously"@
                    } else {
                        "Currently"@
                    },
                ),
            ] + (if ignore_info.dir_count > 0 {
                seq![
                    spec_spaced_line(
                        grouped_decimal(ignore_info.file_count as int),
                        grouped_decimal((ignore_info.size / BYTES_PER_MB) as int),
                        Seq::<char>::empty(),
                        "Ignored"@,
                    ),
                ]
            } else {
                Seq::<Seq<char>>::empty()
            }) + seq![
                spec_spaced_line(
                    grouped_decimal(wipe_info.file_count as int),
                    grouped_decimal((wipe_info.size / BYTES_PER_MB) as int),
                    Seq::<char>::empty(),
                    if params.wipe {
                        "Wiped"@
                    } else {
                        "Can wipe"@
                    },
                ),
                spec_spaced_line(
                    grouped_decimal(after_files as int),
                    grouped_decimal((after_size / BYTES_PER_MB) as int),
                    Seq::<char>::empty(),
                    if params.wipe {
                        "Now"@
                    } else {
                        "After wipe"@
                    },
                ),
                Seq::<char>::empty(),
            ]
        },
        None => Seq::<Seq<char>>::empty(),
    })
}

/// The closing line: the wipe hint, the all-clear, or the
/// nothing-found notice.
pub open spec fn spec_footer_lines(params: WipeParams, found: bool) -> Seq<Seq<char>> {
    if found {
        if params.wipe {
            seq!["All clear!"@]
        } else {
            seq![
                "Run cargo wipe "@ + params.language.spec_name()
                    + " -w to wipe all folders found. USE WITH CAUTION!"@,
            ]
        }
    } else {
        seq!["Nothing found!"@]
    }
}

/// The line-by-line report writer.
#[derive(Debug)]
pub struct Writer {
    lines: Vec<String>,
}

impl View for Writer {
    type V = Seq<Seq<char>>;

    closed spec fn view(&self) -> Seq<Seq<char>> {
        self.lines@.map_values(|s: String| s@)
    }
}

impl Writer {
    /// A writer with no lines produced yet.
    pub fn new() -> (w: Writer)
        ensures
            w@ == Seq::<Seq<char>>::empty(),
    {
        let w = Writer { lines: Vec::new() };
        proof {
            assert(w@ =~= Seq::<Seq<char>>::empty());
        }
        w
    }

    /// The lines produced so far.
    pub fn lines(&self) -> (r: &Vec<String>)
        ensures
            r@.map_values(|s: String| s@) == self@,
            r@.len() == self@.len(),
    {
        &self.lines
    }

    /// Appends one finished line.
    fn push_line(&mut self, line: String)
        ensures
            final(self)@ == old(self)@ + seq![line@],
    {
        let ghost l = line@;
        self.lines.push(line);
        proof {
            assert(self@ =~= old(self)@ + seq![l]);
        }
    }

    /// Appends an empty line.
    fn push_blank(&mut self)
        ensures
            final(self)@ == old(self)@ + seq![Seq::<char>::empty()],
    {
        let s = String::new();
        self.push_line(s);
    }

    /// Renders a four-column line.
    fn spaced_line(c1: &str, c2: &str, c3: &str, c4: &str) -> (r: String)
        ensures
            r@ == spec_spaced_line(c1@, c2@, c3@, c4@),
    {
        let mut line = pad_left(c1, SPACING_FILES);
        let p2 = pad_left(c2, SPACING_SIZE);
        let p3 = pad_left(c3, SPACING_PATH);
        line.append(p2.as_str());
        line.append(p3.as_str());
        line.append(c4);
        line
    }

    /// Writes the header line: the mode tag and what is searched
    /// where.
    pub fn write_header(&mut self, params: &WipeParams)
        ensures
            final(self)@ == old(self)@ + seq![spec_header_line(*params)],
    {
        let directory = crate::command::DirectoryEnum::from(params.language).to_string();
        let mut line = if params.wipe {
            String::from_str("[WIPING]")
        } else {
            String::from_str("[DRY RUN]")
        };
        line.append(" Recursively searching for all \"");
        line.append(directory.as_str());
        line.append("\" folders in ");
        line.append(params.path.as_str());
        line.append("...");
        self.push_line(line);
    }

    /// Writes the blank line and column header that precede the
    /// per-path listing.
    pub fn write_content_header(&mut self)
        ensures
            final(self)@ == old(self)@ + spec_content_header_lines(),
    {
        self.push_blank();
        let line = Self::spaced_line("Files #", "Size (MB)", "", "Path");
        self.push_line(line);
        proof {
            assert(""@ =~= Seq::<char>::empty()) by {
                reveal_strlit("");
            }
            assert(final(self)@ =~= old(self)@ + spec_content_header_lines());
        }
    }

    /// Writes one candidate's line: counts and path, with the ignore
    /// marker and, when a deletion failed, the error.
    pub fn write_content_line(
        &mut self,
        path: &str,
        dir_info: Option<DirInfo>,
        ignored: bool,
        error: Option<&String>,
    )
        ensures
            final(self)@ == old(self)@ + seq![
                spec_content_line(
                    path@,
                    dir_info,
                    ignored,
                    match error {
                        Some(e) => Some(e@),
                        None => None,
                    },
                ),
            ],
    {
        let mut line = match dir_info {
            Some(di) => {
                let files = di.file_count_formatted();
                let size = di.size_formatted_mb();
                Self::spaced_line(files.as_str(), size.as_str(), "", path)
            },
            None => Self::spaced_line("?", "?", "", path),
        };
        proof {
            assert(""@ =~= Seq::<char>::empty()) by {
                reveal_strlit("");
            }
        }
        if ignored {
            line.append(" [Ignored]");
        }
        match error {
            Some(e) => {
                line.append(" [");
                line.append(e.as_str());
                line.append("]");
            },
            None => {},
        }
        proof {
            assert(line@ =~= spec_content_line(
                path@,
                dir_info,
                ignored,
                match error {
                    Some(e) => Some(e@),
                    None => None,
                },
            ));
        }
        self.push_line(line);
    }

    /// Writes the summary block: the whole root's former statistics,
    /// the ignored and wiped totals, and what remains.  A run without
    /// candidates has no `previous_info` and gets no block, only the
    /// separating blank line.
    pub fn write_summary(
        &mut self,
        params: &WipeParams,
        wipe_info: &DirInfo,
        ignore_info: &DirInfo,
        previous_info: &Option<DirInfo>,
    )
        requires
            previous_info is Some ==> wipe_info.file_count <= previous_info->0.file_count
                && wipe_info.size <= previous_info->0.size,
        ensures
            final(self)@ == old(self)@ + spec_summary_lines(
                *params,
                *wipe_info,
                *ignore_info,
                *previous_info,
            ),
    {
        self.push_blank();
        match previous_info {
            Some(previous) => {
                proof {
                    assert(""@ =~= Seq::<char>::empty()) by {
                        reveal_strlit("");
                    }
                }
                let line = Self::spaced_line("Files #", "Size (MB)", "", params.path.as_str());
                self.push_line(line);
                let files = previous.file_count_formatted();
                let size = previous.size_formatted_mb();
                let label = if params.wipe {
                    "Previously"
                } else {
                    "Currently"
                };
                let line = Self::spaced_line(files.as_str(), size.as_str(), "", label);
                self.push_line(line);
                if ignore_info.dir_count > 0 {
                    let files = ignore_info.file_count_formatted();
                    let size = ignore_info.size_formatted_mb();
                    let line = Self::spaced_line(files.as_str(), size.as_str(), "", "Ignored");
                    self.push_line(line);
                }
                let files = wipe_info.file_count_formatted();
                let size = wipe_info.size_formatted_mb();
                let label = if params.wipe {
                    "Wiped"
                } else {
                    "Can wipe"
                };
                let line = Self::spaced_line(files.as_str(), size.as_str(), "", label);
                self.push_line(line);
                let after = DirInfo::new(
                    0,
                    previous.file_count - wipe_info.file_count,
                    previous.size - wipe_info.size,
                );
                let files = after.file_count_formatted();
                let size = after.size_formatted_mb();
                let label = if params.wipe {
                    "Now"
                } else {
                    "After wipe"
                };
                let line = Self::spaced_line(files.as_str(), size.as_str(), "", label);
                self.push_line(line);
                self.push_blank();
                proof {
                    assert(final(self)@ =~= old(self)@ + spec_summary_lines(
                        *params,
                        *wipe_info,
                        *ignore_info,
                        *previous_info,
                    ));
                }
            },
            None => {
                proof {
                    assert(final(self)@ =~= old(self)@ + spec_summary_lines(
                        *params,
                        *wipe_info,
                        *ignore_info,
                        *previous_info,
                    ));
                }
            },
        }
    }

    /// Writes the closing line: the wipe hint in a dry run that found
    /// candidates, the all-clear after a wipe, or the nothing-found
    /// notice.
    pub fn write_footer(&mut self, params: &WipeParams, found: bool)
        ensures
            final(self)@ == old(self)@ + spec_footer_lines(*params, found),
    {
        if found {
            if params.wipe {
                self.push_line(String::from_str("All clear!"));
            } else {
                let mut line = String::from_str("Run cargo wipe ");
                let language = params.language.to_string();
                line.append(language.as_str());
                line.append(" -w to wipe all folders found. USE WITH CAUTION!");
                self.push_line(line);
            }
        } else {
            self.push_line(String::from_str("Nothing found!"));
        }
    }
}

} // verus!
