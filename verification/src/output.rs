use vstd::prelude::*;
use vstd::string::StringExecFns;

verus! {

/// Where result records go: a directory and a file-name prefix. The
/// actual persistence (delimited text or line-delimited records) is the
/// sink's concern and happens outside the engine.
pub struct OutputWriter {
    pub output_dir: String,
    pub output_prefix: String,
}

impl OutputWriter {
    pub fn new(output_dir: String, output_prefix: String) -> (w: OutputWriter)
        ensures
            w.output_dir@ == output_dir@,
            w.output_prefix@ == output_prefix@,
    {
        OutputWriter { output_dir, output_prefix }
    }

    /// The name of one result file: the configured prefix, a
    /// timestamp rendered by the caller, and the format's extension.
    pub fn output_filename(&self, timestamp: &str, extension: &str) -> (r: String)
        ensures
            r@ == self.output_prefix@ + "_"@ + timestamp@ + "."@ + extension@,
    {
        let mut name = String::from_str(self.output_prefix.as_str());
        name.append("_");
        name.append(timestamp);
        name.append(".");
        name.append(extension);
        name
    }
}

} // verus!
