use vstd::prelude::*;
use crate::config::Config;
use crate::render::{Numbering, rendered, render_lines};

verus! {

/// What one name of the file list gave: its lines, or the description of why
/// it could not be opened.
pub type Input = Result<Vec<String>, String>;

/// The model of an input: its lines as character sequences, or the error
/// description.
pub type InputModel = Result<Seq<Seq<char>>, Seq<char>>;

pub open spec fn input_model(i: Input) -> InputModel {
    match i {
        Ok(lines) => Ok(lines@.map_values(|l: String| l@)),
        Err(m) => Err(m@),
    }
}

pub open spec fn inputs_model(inputs: Seq<Input>) -> Seq<InputModel> {
    inputs.map_values(|i: Input| input_model(i))
}

/// The diagnostic for a name that could not be opened: `<name>: <message>`.
pub open spec fn diagnostic(name: Seq<char>, message: Seq<char>) -> Seq<char> {
    name + seq![':', ' '] + message
}

/// Standard output of a run over `inputs`: each opened source rendered on its
/// own, with its counter starting afresh, in order; nothing for one that
/// failed to open.
pub open spec fn run_output(mode: Numbering, inputs: Seq<InputModel>) -> Seq<char>
    decreases inputs.len(),
{
    if inputs.len() == 0 {
        seq![]
    } else {
        run_output(mode, inputs.drop_last()) + match inputs.last() {
            Ok(lines) => rendered(mode, lines),
            Err(_) => seq![],
        }
    }
}

/// The diagnostics of a run: one for each name whose source failed to open,
/// in order.
pub open spec fn run_diagnostics(names: Seq<Seq<char>>, inputs: Seq<InputModel>) -> Seq<Seq<char>>
    decreases inputs.len(),
{
    if inputs.len() == 0 || names.len() == 0 {
        seq![]
    } else {
        let earlier = run_diagnostics(names.drop_last(), inputs.drop_last());
        match inputs.last() {
            Ok(_) => earlier,
            Err(m) => earlier.push(diagnostic(names.last(), m)),
        }
    }
}

/// What a run writes: the text for standard output and the lines for
/// standard error.
pub struct Emitted {
    pub stdout: String,
    pub diagnostics: Vec<String>,
}

/// The diagnostic line for `name`, which could not be opened for `message`.
pub fn open_diagnostic(name: &str, message: &str) -> (r: String)
    ensures
        r@ == diagnostic(name@, message@),
{
    let mut out = String::from_str(name);
    proof {
        reveal_strlit(": ");
    }
    out.append(": ");
    out.append(message);
    out
}

/// The output of a run of `config` whose names gave `inputs`, one for each
/// name in order.
pub fn emit(config: &Config, inputs: &Vec<Input>) -> (r: Emitted)
    requires
        inputs@.len() == config.file_names().len(),
        forall|k: int| #![auto] 0 <= k < inputs@.len() && inputs@[k] is Ok ==> inputs@[k]->Ok_0@.len()
            < u64::MAX,
    ensures
        r.stdout@ == run_output(config.spec_numbering(), inputs_model(inputs@)),
        r.diagnostics@.map_values(|d: String| d@) == run_diagnostics(
            config.file_names().map_values(|n: String| n@),
            inputs_model(inputs@),
        ),
{
    let mode = config.numbering();
    let files = config.files();
    let ghost model = inputs_model(inputs@);
    let ghost names = files@.map_values(|n: String| n@);
    let mut stdout = String::new();
    let mut diagnostics: Vec<String> = Vec::new();
    let mut k: usize = 0;
    while k < inputs.len()
        invariant
            k <= inputs@.len() == files@.len(),
            mode == config.spec_numbering(),
            files@ == config.file_names(),
            model == inputs_model(inputs@),
            names == files@.map_values(|n: String| n@),
            forall|j: int| #![auto] 0 <= j < inputs@.len() && inputs@[j] is Ok ==> inputs@[j]->Ok_0@.len()
                < u64::MAX,
            stdout@ == run_output(mode, model.take(k as int)),
            diagnostics@.map_values(|d: String| d@) == run_diagnostics(
                names.take(k as int),
                model.take(k as int),
            ),
        decreases inputs@.len() - k,
    {
        assert(model.take(k as int + 1).drop_last() =~= model.take(k as int));
        assert(names.take(k as int + 1).drop_last() =~= names.take(k as int));
        match &inputs[k] {
            Ok(lines) => {
                let text = render_lines(mode, lines);
                stdout.append(text.as_str());
            },
            Err(message) => {
                let d = open_diagnostic(files[k].as_str(), message.as_str());
                let ghost before = diagnostics@;
                diagnostics.push(d);
                assert(diagnostics@.map_values(|d: String| d@) =~= before.map_values(
                    |d: String| d@,
                ).push(d@));
            },
        }
        k = k + 1;
    }
    assert(model.take(inputs@.len() as int) =~= model);
    assert(names.take(inputs@.len() as int) =~= names);
    Emitted { stdout, diagnostics }
}

} // verus!
