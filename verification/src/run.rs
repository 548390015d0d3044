//! One unit of input, front to back: scan, parse, and — only when no
//! lexical or syntactic diagnostic was raised — interpret against the
//! caller's long-lived interpreter.

use vstd::prelude::*;

use crate::diag::Diag;
use crate::diag::SpecDiag;
use crate::interpreter::spec_interpret;
use crate::interpreter::Interpreter;
use crate::interpreter::SpecEnv;
use crate::parser::has_eof_from;
use crate::parser::spec_parse;
use crate::parser::spec_parse_ok;
use crate::parser::Parser;
use crate::scanner::spec_scan;
use crate::scanner::Scanner;
use crate::token::SpecToken;
use crate::token::Token;
use crate::token_type::TokenType;

verus! {

/// What one run yields: the lexical and syntactic diagnostics in order, the
/// lines printed, the runtime error that stopped interpretation if one did,
/// and the environment afterwards. A unit with any lexical or syntactic
/// diagnostic is never interpreted, so it prints nothing and leaves the
/// environment alone.
pub open spec fn spec_run(src: Seq<char>, env: SpecEnv) -> (
    Seq<SpecDiag>,
    Seq<Seq<char>>,
    Option<(SpecToken, Seq<char>)>,
    SpecEnv,
) {
    let scanned = spec_scan(src, 0, 1);
    let parsed = spec_parse(scanned.0);
    let diags = scanned.1 + parsed.1;
    if diags.len() == 0 && spec_parse_ok(scanned.0, 0) {
        let (env2, outs, err) = spec_interpret(env, parsed.0);
        (diags, outs, err, env2)
    } else {
        (diags, Seq::empty(), Option::<(SpecToken, Seq<char>)>::None, env)
    }
}

/// What one unit of input produced.
pub struct RunOutcome {
    /// The lexical and syntactic diagnostics, scanner's first.
    pub diagnostics: Vec<Diag>,
    /// The lines the program printed.
    pub output: Vec<String>,
    /// The runtime error that stopped the batch, if one did.
    pub runtime_error: Option<(Token, String)>,
}

/// The run outcome is a function of the source text and the starting
/// environment alone: running the same source against interpreters in equal
/// states — as two freshly constructed interpreters always are — yields
/// identical diagnostics, identical output, and the same error, so nothing
/// leaks from one independent run into another.
pub proof fn lemma_run_deterministic(src1: Seq<char>, src2: Seq<char>, env1: SpecEnv, env2: SpecEnv)
    requires
        src1 == src2,
        env1 == env2,
    ensures
        spec_run(src1, env1) == spec_run(src2, env2),
{
}

/// Scan, parse, and — when both stages were clean — interpret one unit of
/// source text against the given interpreter.
pub fn run(source: &str, interpreter: &mut Interpreter) -> (r: RunOutcome)
    requires
        source@.len() < usize::MAX,
    ensures
        ({
            let (diags, outs, err, env2) = spec_run(source@, old(interpreter)@);
            &&& r.diagnostics.deep_view() == diags
            &&& r.output.deep_view() == outs
            &&& final (interpreter)@ == env2
            &&& match (r.runtime_error, err) {
                (None, None) => true,
                (Some(e), Some(se)) => e.0@ == se.0 && e.1@ == se.1,
                _ => false,
            }
        }),
{
    let ghost src = source@;
    let mut scanner = Scanner::new(source);
    let tokens = scanner.scan_tokens();
    proof {
        let toks = tokens.deep_view();
        assert(toks[toks.len() - 1].kind == TokenType::EOF);
        assert(has_eof_from(toks, 0));
    }
    let mut parser = Parser::new(tokens);
    let parsed = parser.parse();

    let mut diagnostics: Vec<Diag> = Vec::new();
    let ghost lex_diags = scanner.spec_errors();
    let ghost parse_diags = parser.errs();
    let scan_errs = scanner.diagnostics();
    let mut k: usize = 0;
    proof {
        assert(diagnostics.deep_view() =~= lex_diags.take(0));
    }
    while k < scan_errs.len()
        invariant
            k <= scan_errs.len(),
            scan_errs.deep_view() == lex_diags,
            diagnostics.deep_view() == lex_diags.take(k as int),
        decreases scan_errs.len() - k,
    {
        let d = scan_errs[k].clone();
        let ghost prev = diagnostics.deep_view();
        diagnostics.push(d);
        proof {
            assert(scan_errs.deep_view()[k as int] == scan_errs@[k as int].deep_view());
            assert(diagnostics.deep_view() =~= prev.push(d@));
            assert(diagnostics.deep_view() =~= lex_diags.take(k + 1));
        }
        k = k + 1;
    }
    proof {
        assert(lex_diags.take(lex_diags.len() as int) =~= lex_diags);
    }
    let parse_errs = parser.diagnostics();
    let mut j: usize = 0;
    while j < parse_errs.len()
        invariant
            j <= parse_errs.len(),
            parse_errs.deep_view() == parse_diags,
            diagnostics.deep_view() == lex_diags + parse_diags.take(j as int),
        decreases parse_errs.len() - j,
    {
        let d = parse_errs[j].clone();
        let ghost prev = diagnostics.deep_view();
        diagnostics.push(d);
        proof {
            assert(parse_errs.deep_view()[j as int] == parse_errs@[j as int].deep_view());
            assert(diagnostics.deep_view() =~= prev.push(d@));
            assert(diagnostics.deep_view() =~= lex_diags + parse_diags.take(j + 1));
        }
        j = j + 1;
    }
    proof {
        assert(parse_diags.take(parse_diags.len() as int) =~= parse_diags);
        assert(diagnostics.deep_view() =~= lex_diags + parse_diags);
    }

    if diagnostics.len() > 0 {
        let output: Vec<String> = Vec::new();
        proof {
            assert(output.deep_view() =~= Seq::<Seq<char>>::empty());
        }
        return RunOutcome { diagnostics, output, runtime_error: None };
    }
    match parsed {
        Ok(statements) => {
            let (output, runtime_error) = interpreter.interpret(&statements);
            RunOutcome { diagnostics, output, runtime_error }
        },
        Err(()) => {
            // a failed declaration always reported a diagnostic, so this
            // arm is never reached with an empty diagnostic list
            let output: Vec<String> = Vec::new();
            proof {
                assert(output.deep_view() =~= Seq::<Seq<char>>::empty());
            }
            RunOutcome { diagnostics, output, runtime_error: None }
        },
    }
}

} // verus!
