use vstd::prelude::*;

verus! {

/// Everything that can go wrong in a run, by origin. The payloads describe
/// the failure.
#[derive(Debug, PartialEq, Eq)]
pub enum Error {
    /// Getting the current date failed, or it was not a calendar date
    Date(String),
    /// Getting the command-line arguments failed
    Args(String),
    /// Running the introspection query against the endpoint failed
    Query(String),
    /// Reading the schema file failed
    ReadSchemaFile(String),
    /// Preparing the output directory (first field) failed
    PrepareOutputDirectory(String, String),
    /// Writing a file (first field) failed
    WriteFile(String, String),
    /// The introspection response did not have the shape of a schema
    Serde(String),
    /// A template could not be loaded
    HandlebarsTemplate(String),
    /// A template could not be rendered
    HandlebarsRender(String),
    /// The command-line arguments were not accepted
    ClapError(String),
}

/// `prefix`, then the quoted name if there is one, then `": "` and
/// `detail`.
pub open spec fn described(prefix: Seq<char>, quoted: Option<Seq<char>>, detail: Seq<char>) -> Seq<char> {
    match quoted {
        Some(q) => prefix + " '"@ + q + "': "@ + detail,
        None => prefix + ": "@ + detail,
    }
}

fn describe(prefix: &str, quoted: Option<&String>, detail: &String) -> (r: String)
    ensures
        r@ == described(prefix@, match quoted {
            Some(q) => Some(q@),
            None => None,
        }, detail@),
{
    let mut out = String::new();
    out.append(prefix);
    match quoted {
        Some(q) => {
            out.append(" '");
            out.append(q.as_str());
            out.append("': ");
        },
        None => out.append(": "),
    }
    out.append(detail.as_str());
    proof {
        assert(out@ =~= described(prefix@, match quoted {
            Some(q) => Some(q@),
            None => None,
        }, detail@));
    }
    out
}

impl Error {
    /// The description of each error.
    pub open spec fn message_spec(&self) -> Seq<char> {
        match self {
            Error::Date(m) => described("Failed to retrieve current date"@, None, m@),
            Error::Args(m) => described("Failed to retrieve args"@, None, m@),
            Error::Query(m) => described("Failed to execute introspection query"@, None, m@),
            Error::ReadSchemaFile(m) => described("Failed to read schema file"@, None, m@),
            Error::PrepareOutputDirectory(p, m) => described(
                "Failed to prepare output directory"@,
                Some(p@),
                m@,
            ),
            Error::WriteFile(f, m) => described("Failed to write file"@, Some(f@), m@),
            Error::Serde(m) => described(
                "Failed to parse GraphQL Introspection response"@,
                None,
                m@,
            ),
            Error::HandlebarsTemplate(m) => described(
                "Failed to load handlebars template"@,
                None,
                m@,
            ),
            Error::HandlebarsRender(m) => described(
                "Failed to render handlebars template"@,
                None,
                m@,
            ),
            Error::ClapError(m) => described("Failed to parse arguments"@, None, m@),
        }
    }

    /// A description of the error for people.
    pub fn message(&self) -> (r: String)
        ensures
            r@ == self.message_spec(),
    {
        match self {
            Error::Date(m) => describe("Failed to retrieve current date", None, m),
            Error::Args(m) => describe("Failed to retrieve args", None, m),
            Error::Query(m) => describe("Failed to execute introspection query", None, m),
            Error::ReadSchemaFile(m) => describe("Failed to read schema file", None, m),
            Error::PrepareOutputDirectory(p, m) => describe(
                "Failed to prepare output directory",
                Some(p),
                m,
            ),
            Error::WriteFile(f, m) => describe("Failed to write file", Some(f), m),
            Error::Serde(m) => describe("Failed to parse GraphQL Introspection response", None, m),
            Error::HandlebarsTemplate(m) => describe("Failed to load handlebars template", None, m),
            Error::HandlebarsRender(m) => describe("Failed to render handlebars template", None, m),
            Error::ClapError(m) => describe("Failed to parse arguments", None, m),
        }
    }

    /// The exit code of each kind of error.
    pub open spec fn exit_code_spec(&self) -> i32 {
        match self {
            Error::ClapError(_) => 2,
            Error::Date(_) => 10,
            Error::Args(_) => 11,
            Error::Query(_) => 12,
            Error::ReadSchemaFile(_) => 13,
            Error::PrepareOutputDirectory(_, _) => 20,
            Error::WriteFile(_, _) => 21,
            Error::Serde(_) => 30,
            Error::HandlebarsTemplate(_) | Error::HandlebarsRender(_) => 31,
        }
    }

    /// A copy of this error.
    pub fn duplicate(&self) -> (r: Error)
        ensures
            r == *self,
    {
        match self {
            Error::Date(m) => Error::Date(m.clone()),
            Error::Args(m) => Error::Args(m.clone()),
            Error::Query(m) => Error::Query(m.clone()),
            Error::ReadSchemaFile(m) => Error::ReadSchemaFile(m.clone()),
            Error::PrepareOutputDirectory(p, m) => Error::PrepareOutputDirectory(p.clone(), m.clone()),
            Error::WriteFile(f, m) => Error::WriteFile(f.clone(), m.clone()),
            Error::Serde(m) => Error::Serde(m.clone()),
            Error::HandlebarsTemplate(m) => Error::HandlebarsTemplate(m.clone()),
            Error::HandlebarsRender(m) => Error::HandlebarsRender(m.clone()),
            Error::ClapError(m) => Error::ClapError(m.clone()),
        }
    }

    /// The process exit code for each kind of error.
    pub fn exit_code(&self) -> (r: i32)
        ensures
            r == self.exit_code_spec(),
    {
        match self {
            Error::ClapError(_) => 2,
            Error::Date(_) => 10,
            Error::Args(_) => 11,
            Error::Query(_) => 12,
            Error::ReadSchemaFile(_) => 13,
            Error::PrepareOutputDirectory(_, _) => 20,
            Error::WriteFile(_, _) => 21,
            Error::Serde(_) => 30,
            Error::HandlebarsTemplate(_) | Error::HandlebarsRender(_) => 31,
        }
    }
}

} // verus!
