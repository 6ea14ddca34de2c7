use vstd::prelude::*;
use vstd::string::*;
use crate::grammar::parse;
use crate::interpreter::Interpreter;
use crate::parser::Parser;
use crate::scanner::{scan, texts, Scanner};
use crate::semantics::load;
use crate::stmt::{models, StmtModel};

verus! {

/// What the front end makes of a source text.
pub struct Front {
    /// The statements that could be parsed, in order.
    pub statements: Seq<StmtModel>,
    /// The reports of the scanner, then those of the parser.
    pub errors: Seq<Seq<char>>,
}

/// The statements of a source text and the reports of what is wrong in it.
pub open spec fn front(source: Seq<char>) -> Front {
    let scanned = scan(source);
    let parsed = parse(scanned.tokens);
    Front { statements: parsed.statements, errors: scanned.errors + parsed.errors }
}

/// Scans and parses a source text.
pub fn read(input: &str) -> (r: (Vec<crate::stmt::Stmt>, Vec<String>))
    ensures
        models(r.0@) == front(input@).statements,
        texts(r.1@) == front(input@).errors,
{
    let mut scanner = Scanner::new(String::from_str(input));
    let _ = scanner.scan_tokens();
    let (tokens, mut errors) = scanner.into_parts();
    let ghost scanned = scan(input@);
    proof {
        assert(crate::scanner::token_models(tokens@) =~= scanned.tokens);
        assert(texts(errors@) =~= scanned.errors);
    }
    let mut parser = Parser::new(tokens);
    let statements = parser.parser();
    let found = parser.get_errors();
    let mut i: usize = 0;
    while i < found.len()
        invariant
            i <= found.len(),
            texts(errors@) == scanned.errors + texts(found@).take(i as int),
        decreases found.len() - i,
    {
        let ghost before = texts(errors@);
        errors.push(found[i].clone());
        assert(texts(errors@) =~= before.push(found@[i as int]@));
        assert(texts(found@).take(i + 1) =~= texts(found@).take(i as int).push(found@[i as int]@));
        i += 1;
    }
    proof {
        assert(texts(found@).take(found@.len() as int) =~= texts(found@));
        assert(texts(found@) =~= parse(scanned.tokens).errors);
    }
    (statements, errors)
}

/// Scans and parses a source text, and hands its statements to the
/// interpreter unless anything is wrong in it. A text with an error is not
/// run at all. Returns the reports.
pub fn run(input: &str, interpreter: &mut Interpreter) -> (reports: Vec<String>)
    ensures
        texts(reports@) == front(input@).errors,
        final(interpreter)@ == if front(input@).errors.len() == 0 {
            load(old(interpreter)@, front(input@).statements)
        } else {
            old(interpreter)@
        },
{
    let (statements, reports) = read(input);
    if reports.len() == 0 {
        interpreter.interpret(statements);
    }
    reports
}

} // verus!
