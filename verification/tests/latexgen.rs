use pundoc::latex::{CodeBlockGen, PreambleStep, Thesis};

#[test]
fn preamble_with_disclaimer_and_one_abstract() {
    let thesis = Thesis::new();
    let plan = thesis.gen_preamble(true, true, false);
    assert_eq!(
        plan,
        vec![
            PreambleStep::DocumentClass,
            PreambleStep::Packages,
            PreambleStep::Fixes,
            PreambleStep::BeginDocument,
            PreambleStep::TitlepageCommands,
            PreambleStep::PageNumberingAlph,
            PreambleStep::Cover,
            PreambleStep::FrontMatter,
            PreambleStep::Title,
            PreambleStep::Disclaimer,
            PreambleStep::ClearDoublePage,
            PreambleStep::AbstractFirst,
            PreambleStep::TableOfContents,
            PreambleStep::MainMatter,
        ]
    );
}

#[test]
fn preamble_minimal_configuration() {
    let thesis = Thesis::new();
    let plan = thesis.gen_preamble(false, false, false);
    assert_eq!(
        plan,
        vec![
            PreambleStep::DocumentClass,
            PreambleStep::Packages,
            PreambleStep::Fixes,
            PreambleStep::BeginDocument,
            PreambleStep::TitlepageCommands,
            PreambleStep::PageNumberingAlph,
            PreambleStep::Cover,
            PreambleStep::FrontMatter,
            PreambleStep::Title,
            PreambleStep::ClearDoublePage,
            PreambleStep::TableOfContents,
            PreambleStep::MainMatter,
        ]
    );
}

#[test]
fn epilogue_closes_document() {
    let thesis = Thesis::new();
    assert_eq!(thesis.gen_epilogue(), vec![PreambleStep::EndDocument]);
}

#[test]
fn codeblock_without_language() {
    let (_, header) = CodeBlockGen::new("");
    assert_eq!(header, "\\begin{lstlisting}\n");
}

#[test]
fn codeblock_with_language() {
    let (_, header) = CodeBlockGen::new("rust");
    assert_eq!(header, "\\begin{lstlisting}[language=rust]\n");
}

#[test]
fn codeblock_sequence_language_suppressed() {
    let (_, header) = CodeBlockGen::new("sequence");
    assert_eq!(header, "\\begin{lstlisting}[]\n");
}

#[test]
fn codeblock_language_with_arguments() {
    // the first argument names the language, the rest pass through as
    // written; the language option repeats the whole argument string
    let (_, header) = CodeBlockGen::new("rust,label=lst");
    assert_eq!(header, "\\begin{lstlisting}[language=rust,label=lstlabel=lst]\n");
}

#[test]
fn codeblock_explicit_first_argument() {
    let (_, header) = CodeBlockGen::new("caption=demo");
    assert_eq!(header, "\\begin{lstlisting}[caption=demo]\n");
}

#[test]
fn codeblock_finish() {
    let (gen, _) = CodeBlockGen::new("rust");
    assert_eq!(gen.finish(), "\\end{lstlisting}\n");
}
