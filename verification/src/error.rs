use vstd::prelude::*;

verus! {

/// The failure taxonomy of the pipeline.
///
/// Every run aborts at the first error; the variant says which stage gave up
/// and carries enough context (file path, template name, underlying cause) to
/// diagnose it.
#[derive(Debug)]
pub enum BuildError {
    /// Malformed or missing configuration or scheme-directory structure.
    Config { message: String },
    /// A scheme file's content does not match the expected shape.
    Parse { path: String, message: String },
    /// The overwrite policy forbids touching an already-present output file.
    FileExists { path: String },
    /// A directory or file operation failed.
    Io { message: String },
    /// The template engine reported a fault while rendering.
    Render { template: String, message: String },
}

impl BuildError {
    /// A short label for the error's category.
    pub fn category(&self) -> (r: &'static str)
        ensures
            r@ == self.category_spec(),
    {
        match self {
            BuildError::Config { .. } => "configuration error",
            BuildError::Parse { .. } => "parse error",
            BuildError::FileExists { .. } => "file already exists",
            BuildError::Io { .. } => "i/o error",
            BuildError::Render { .. } => "render error",
        }
    }

    pub open spec fn category_spec(&self) -> Seq<char> {
        match self {
            BuildError::Config { .. } => "configuration error"@,
            BuildError::Parse { .. } => "parse error"@,
            BuildError::FileExists { .. } => "file already exists"@,
            BuildError::Io { .. } => "i/o error"@,
            BuildError::Render { .. } => "render error"@,
        }
    }
}

} // verus!
