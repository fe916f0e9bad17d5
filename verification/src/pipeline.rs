//! The generation pipeline's pure core: from the chosen module type's
//! template texts and the collected parameters to the named, rendered
//! output pair.  The caller scans the directory, reads the template
//! files, collects the values, and writes the result out.

use vstd::prelude::*;
use crate::params::ParamSet;
use crate::render::{render_pair, render_spec, RenderFailure, RenderOut, DocKind};
use crate::render::error_matches;
use crate::scanner::{ext_json, ext_cpp, ext_h};
use crate::writer::{
    derive_output_name, header_path_of, last_segment, module_name_key, output_paths,
    source_path_of,
};
use vstd::string::StringExecFns;

verus! {

/// The three files of a module type, derived from its extensionless base
/// path: `<base>.json`, `<base>.h`, `<base>.cpp`.
pub struct TemplateFiles {
    pub schema_path: String,
    pub header_path: String,
    pub source_path: String,
}

/// The paths of the module type's three files.
pub fn template_file_paths(template_path: &str) -> (r: TemplateFiles)
    ensures
        r.schema_path@ == template_path@ + ext_json(),
        r.header_path@ == template_path@ + ext_h(),
        r.source_path@ == template_path@ + ext_cpp(),
{
    proof {
        reveal_strlit(".json");
        reveal_strlit(".h");
        reveal_strlit(".cpp");
        assert(".json"@ =~= ext_json());
        assert(".h"@ =~= ext_h());
        assert(".cpp"@ =~= ext_cpp());
    }
    let mut schema_path = String::from_str(template_path);
    schema_path.append(".json");
    let mut header_path = String::from_str(template_path);
    header_path.append(".h");
    let mut source_path = String::from_str(template_path);
    source_path.append(".cpp");
    TemplateFiles { schema_path, header_path, source_path }
}

/// One generation run's result: the derived base name, the two output
/// paths, and the two rendered bodies, ready to be written.
#[derive(Debug)]
pub struct GeneratedModule {
    pub output_name: String,
    pub header_path: String,
    pub source_path: String,
    pub header_body: String,
    pub source_body: String,
}

/// Renders the module type's two templates against the parameter set and
/// names the output: the base name is the `module_name` value if bound,
/// else the last segment of the template base path; the paths put that
/// name under the output directory with the `.h` and `.cpp` extensions;
/// the bodies are the strict renders of the two templates.  On a render
/// failure nothing is produced and the failure names the document; the
/// header is rendered first.
pub fn generate(
    header_template: &str,
    source_template: &str,
    params: &ParamSet,
    template_path: &str,
    output_dir: &str,
) -> (r: Result<GeneratedModule, RenderFailure>)
    ensures
        match r {
            Ok(g) => {
                &&& params@.contains_key(module_name_key()) ==> g.output_name@
                    == params@[module_name_key()]
                &&& !params@.contains_key(module_name_key()) ==> g.output_name@ == last_segment(
                    template_path@,
                )
                &&& g.header_path@ == header_path_of(output_dir@, g.output_name@)
                &&& g.source_path@ == source_path_of(output_dir@, g.output_name@)
                &&& render_spec(header_template@, params@) == RenderOut::Done(g.header_body@)
                &&& render_spec(source_template@, params@) == RenderOut::Done(g.source_body@)
            },
            Err(f) => match f.document {
                DocKind::Header => error_matches(f.error, render_spec(header_template@, params@)),
                DocKind::Source => render_spec(header_template@, params@) is Done && error_matches(
                    f.error,
                    render_spec(source_template@, params@),
                ),
            },
        },
{
    let bodies = match render_pair(header_template, source_template, params) {
        Ok(p) => p,
        Err(f) => {
            return Err(f);
        },
    };
    let output_name = derive_output_name(params, template_path);
    let paths = output_paths(output_dir, output_name.as_str());
    Ok(
        GeneratedModule {
            output_name,
            header_path: paths.0,
            source_path: paths.1,
            header_body: bodies.0,
            source_body: bodies.1,
        },
    )
}

} // verus!
