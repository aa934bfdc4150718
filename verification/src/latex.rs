//! The LaTeX thesis backend's fixed document frame and the code-block
//! environment, reduced to what they decide: which pieces are emitted, in
//! which order, and the exact header of a listing. Writing the pieces to
//! an output stream is the surrounding pipeline's business.

use vstd::prelude::*;
use vstd::string::*;

use crate::strutil::{has_char, contains_char, lemma_split_at_nonempty, split_at, split_str, str_eq};

verus! {

/// One piece of the thesis frame, in the order the frame emits them.
#[derive(Debug, PartialEq, Eq, Clone, Copy, Structural)]
pub enum PreambleStep {
    /// The scrbook document class with the thesis options.
    DocumentClass,
    /// The package block.
    Packages,
    /// The fix block.
    Fixes,
    /// Opening the document environment.
    BeginDocument,
    /// The manual titlepage commands.
    TitlepageCommands,
    /// Alphabetic page numbering for the front.
    PageNumberingAlph,
    /// The cover page.
    Cover,
    /// Switching to the front matter.
    FrontMatter,
    /// The title page.
    Title,
    /// The disclaimer page, only when the configuration carries one.
    Disclaimer,
    /// Clearing to a recto page.
    ClearDoublePage,
    /// The first abstract, only when the configuration carries one.
    AbstractFirst,
    /// The second abstract, only when the configuration carries one.
    AbstractSecond,
    /// The table of contents, protrusion disabled around it.
    TableOfContents,
    /// Switching to the main matter.
    MainMatter,
    /// Closing the document environment.
    EndDocument,
}

/// The exact order of the thesis preamble: the fixed frame, with the
/// disclaimer and the abstracts present exactly when configured.
pub open spec fn preamble_plan(
    has_disclaimer: bool,
    has_abstract: bool,
    has_second_abstract: bool,
) -> Seq<PreambleStep> {
    let head = seq![
        PreambleStep::DocumentClass,
        PreambleStep::Packages,
        PreambleStep::Fixes,
        PreambleStep::BeginDocument,
        PreambleStep::TitlepageCommands,
        PreambleStep::PageNumberingAlph,
        PreambleStep::Cover,
        PreambleStep::FrontMatter,
        PreambleStep::Title,
    ];
    let with_disclaimer = if has_disclaimer {
        head.push(PreambleStep::Disclaimer)
    } else {
        head
    };
    let cleared = with_disclaimer.push(PreambleStep::ClearDoublePage);
    let first = if has_abstract {
        cleared.push(PreambleStep::AbstractFirst)
    } else {
        cleared
    };
    let second = if has_second_abstract {
        first.push(PreambleStep::AbstractSecond)
    } else {
        first
    };
    second.push(PreambleStep::TableOfContents).push(PreambleStep::MainMatter)
}

/// The thesis document frame.
#[derive(Debug, PartialEq, Eq, Clone, Copy, Structural)]
pub struct Thesis;

impl Thesis {
    /// A fresh frame.
    pub fn new() -> (r: Thesis)
        ensures
            r == (Thesis {  }),
    {
        Thesis
    }

    /// The pieces of the preamble, in emission order, for a configuration
    /// that carries a disclaimer and abstracts as flagged.
    pub fn gen_preamble(
        &self,
        has_disclaimer: bool,
        has_abstract: bool,
        has_second_abstract: bool,
    ) -> (r: Vec<PreambleStep>)
        ensures
            r@ == preamble_plan(has_disclaimer, has_abstract, has_second_abstract),
    {
        let mut r: Vec<PreambleStep> = Vec::new();
        r.push(PreambleStep::DocumentClass);
        r.push(PreambleStep::Packages);
        r.push(PreambleStep::Fixes);
        r.push(PreambleStep::BeginDocument);
        r.push(PreambleStep::TitlepageCommands);
        r.push(PreambleStep::PageNumberingAlph);
        r.push(PreambleStep::Cover);
        r.push(PreambleStep::FrontMatter);
        r.push(PreambleStep::Title);
        if has_disclaimer {
            r.push(PreambleStep::Disclaimer);
        }
        r.push(PreambleStep::ClearDoublePage);
        if has_abstract {
            r.push(PreambleStep::AbstractFirst);
        }
        if has_second_abstract {
            r.push(PreambleStep::AbstractSecond);
        }
        r.push(PreambleStep::TableOfContents);
        r.push(PreambleStep::MainMatter);
        proof {
            assert(r@ =~= preamble_plan(has_disclaimer, has_abstract, has_second_abstract));
        }
        r
    }

    /// The epilogue: the one piece closing the document environment.
    pub fn gen_epilogue(&self) -> (r: Vec<PreambleStep>)
        ensures
            r@ == seq![PreambleStep::EndDocument],
    {
        let mut r: Vec<PreambleStep> = Vec::new();
        r.push(PreambleStep::EndDocument);
        proof {
            assert(r@ =~= seq![PreambleStep::EndDocument]);
        }
        r
    }
}

/// The pieces of `parts` between `lo` and `hi`, concatenated.
pub open spec fn concat_range(parts: Seq<Seq<char>>, lo: int, hi: int) -> Seq<char>
    decreases hi - lo,
{
    if hi <= lo {
        Seq::empty()
    } else {
        concat_range(parts, lo, hi - 1) + parts[hi - 1]
    }
}

/// Every comma-separated argument after the first is a `key=value` pair;
/// anything else is a programming error in the document's code block.
pub open spec fn listing_args_valid(language: Seq<char>) -> bool {
    forall|i: int|
        1 <= i < split_at(language, ',').len() ==> has_char(#[trigger] split_at(language, ',')[i], '=')
}

/// The exact text opening a listing for `language`: the environment, and
/// for a nonempty language its bracketed arguments — the language name
/// written as a `language=` option unless it is the reserved `sequence`,
/// followed by the remaining `key=value` arguments as given.
pub open spec fn listing_header(language: Seq<char>) -> Seq<char> {
    if language.len() == 0 {
        "\\begin{lstlisting}"@ + "\n"@
    } else {
        let parts = split_at(language, ',');
        let first = if !has_char(parts[0], '=') {
            if language == "sequence"@ {
                Seq::<char>::empty()
            } else {
                "language="@ + language
            }
        } else {
            parts[0]
        };
        "\\begin{lstlisting}"@ + "["@ + first + concat_range(parts, 1, parts.len() as int) + "]"@
            + "\n"@
    }
}

/// The code-block environment of the LaTeX backend.
#[derive(Debug, PartialEq, Eq, Clone, Copy, Structural)]
pub struct CodeBlockGen;

impl CodeBlockGen {
    /// Open a listing for `language`, handing back the exact header text
    /// to emit.
    pub fn new(language: &str) -> (r: (CodeBlockGen, String))
        requires
            listing_args_valid(language@),
        ensures
            r.1@ == listing_header(language@),
    {
        let mut out = String::from_str("\\begin{lstlisting}");
        if language.unicode_len() > 0 {
            out.append("[");
            let parts = split_str(language, ',');
            proof {
                lemma_split_at_nonempty(language@, ',');
            }
            let ghost dv = parts.deep_view();
            let ghost first_piece: Seq<char> = if !has_char(dv[0], '=') {
                if language@ == "sequence"@ {
                    Seq::<char>::empty()
                } else {
                    "language="@ + language@
                }
            } else {
                dv[0]
            };
            proof {
                assert(dv[0] == parts@[0]@);
            }
            if !contains_char(parts[0].as_str(), '=') {
                if !str_eq(language, "sequence") {
                    out.append("language=");
                    out.append(language);
                    proof {
                        assert(out@ =~= "\\begin{lstlisting}"@ + "["@ + first_piece);
                    }
                } else {
                    proof {
                        assert(out@ =~= "\\begin{lstlisting}"@ + "["@ + first_piece);
                    }
                }
            } else {
                out.append(parts[0].as_str());
                proof {
                    assert(out@ =~= "\\begin{lstlisting}"@ + "["@ + first_piece);
                }
            }
            let ghost head = "\\begin{lstlisting}"@ + "["@ + first_piece;
            let mut i: usize = 1;
            while i < parts.len()
                invariant
                    1 <= i <= parts.len(),
                    dv == parts.deep_view(),
                    dv.len() == parts.len(),
                    out@ == head + concat_range(dv, 1, i as int),
                decreases parts.len() - i,
            {
                out.append(parts[i].as_str());
                proof {
                    assert(concat_range(dv, 1, i as int + 1) == concat_range(dv, 1, i as int)
                        + dv[i as int]);
                    assert(out@ =~= head + concat_range(dv, 1, i as int + 1));
                }
                i += 1;
            }
            out.append("]");
            out.append("\n");
            proof {
                assert(out@ =~= head + concat_range(dv, 1, dv.len() as int) + "]"@ + "\n"@);
                assert(out@ =~= listing_header(language@));
            }
        } else {
            out.append("\n");
            proof {
                assert(out@ =~= listing_header(language@));
            }
        }
        (CodeBlockGen, out)
    }

    /// Close the listing, handing back the exact footer text to emit.
    pub fn finish(self) -> (r: String)
        ensures
            r@ == "\\end{lstlisting}"@ + "\n"@,
    {
        let mut out = String::from_str("\\end{lstlisting}");
        out.append("\n");
        out
    }
}

} // verus!
