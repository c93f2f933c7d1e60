//! File extensions: the language named on a Markdown code fence, and the
//! extension under which the syntax highlighter looks a file up.
use crate::pathname::{extension, spec_extension};
use crate::text::{
    ascii_lower, ascii_lower_char, chars_of, is_ascii_text, push_char, spec_to_lowercase, str_eq,
    to_lowercase,
};
use vstd::prelude::*;

verus! {

/// The code-fence language for an already lowercased extension; the empty
/// string for an extension it does not know.
pub open spec fn language_of(ext: Seq<char>) -> Seq<char> {
    if ext == "tsx"@ {
        "tsx"@
    } else if ext == "ts"@ || ext == "mts"@ || ext == "cts"@ {
        "typescript"@
    } else if ext == "jsx"@ {
        "jsx"@
    } else if ext == "js"@ || ext == "mjs"@ || ext == "cjs"@ {
        "javascript"@
    } else if ext == "rs"@ {
        "rust"@
    } else if ext == "py"@ {
        "python"@
    } else if ext == "json"@ {
        "json"@
    } else if ext == "jsonc"@ {
        "jsonc"@
    } else if ext == "toml"@ {
        "toml"@
    } else if ext == "yaml"@ || ext == "yml"@ {
        "yaml"@
    } else if ext == "md"@ {
        "markdown"@
    } else if ext == "html"@ {
        "html"@
    } else if ext == "css"@ {
        "css"@
    } else if ext == "scss"@ {
        "scss"@
    } else if ext == "go"@ {
        "go"@
    } else if ext == "c"@ || ext == "h"@ {
        "c"@
    } else if ext == "cpp"@ || ext == "cc"@ || ext == "hpp"@ {
        "cpp"@
    } else if ext == "sh"@ || ext == "bash"@ {
        "bash"@
    } else if ext == "ps1"@ {
        "powershell"@
    } else if ext == "sql"@ {
        "sql"@
    } else if ext == "txt"@ {
        "text"@
    } else {
        ""@
    }
}

/// The fence language of each known extension, row by row: for example
/// `go` is `go`, `rs` is `rust`, `ts`, `mts` and `cts` are `typescript`,
/// `h` is `c` and `txt` is `text`.
pub proof fn lemma_language_table()
    ensures
        language_of("tsx"@) == "tsx"@,
        language_of("ts"@) == "typescript"@,
        language_of("mts"@) == "typescript"@,
        language_of("cts"@) == "typescript"@,
        language_of("jsx"@) == "jsx"@,
        language_of("js"@) == "javascript"@,
        language_of("mjs"@) == "javascript"@,
        language_of("cjs"@) == "javascript"@,
        language_of("rs"@) == "rust"@,
        language_of("py"@) == "python"@,
        language_of("json"@) == "json"@,
        language_of("jsonc"@) == "jsonc"@,
        language_of("toml"@) == "toml"@,
        language_of("yaml"@) == "yaml"@,
        language_of("yml"@) == "yaml"@,
        language_of("md"@) == "markdown"@,
        language_of("html"@) == "html"@,
        language_of("css"@) == "css"@,
        language_of("scss"@) == "scss"@,
        language_of("go"@) == "go"@,
        language_of("c"@) == "c"@,
        language_of("h"@) == "c"@,
        language_of("cpp"@) == "cpp"@,
        language_of("cc"@) == "cpp"@,
        language_of("hpp"@) == "cpp"@,
        language_of("sh"@) == "bash"@,
        language_of("bash"@) == "bash"@,
        language_of("ps1"@) == "powershell"@,
        language_of("sql"@) == "sql"@,
        language_of("txt"@) == "text"@,
{
    assert(language_of("tsx"@) == "tsx"@) by {
        reveal_strlit("tsx");
        reveal_strlit("tsx");
    }
    assert(language_of("ts"@) == "typescript"@) by {
        reveal_strlit("ts");
        reveal_strlit("typescript");
        assert("ts"@.len() != "typescript"@.len());
        reveal_strlit("tsx");
        assert("ts"@.len() != "tsx"@.len());
    }
    assert(language_of("mts"@) == "typescript"@) by {
        reveal_strlit("mts");
        reveal_strlit("typescript");
        assert("mts"@.len() != "typescript"@.len());
        reveal_strlit("ts");
        assert("mts"@.len() != "ts"@.len());
        reveal_strlit("tsx");
        assert("mts"@[0] != "tsx"@[0]);
    }
    assert(language_of("cts"@) == "typescript"@) by {
        reveal_strlit("cts");
        reveal_strlit("typescript");
        assert("cts"@.len() != "typescript"@.len());
        reveal_strlit("mts");
        assert("cts"@[0] != "mts"@[0]);
        reveal_strlit("ts");
        assert("cts"@.len() != "ts"@.len());
        reveal_strlit("tsx");
        assert("cts"@[0] != "tsx"@[0]);
    }
    assert(language_of("jsx"@) == "jsx"@) by {
        reveal_strlit("jsx");
        reveal_strlit("jsx");
        reveal_strlit("cts");
        assert("jsx"@[0] != "cts"@[0]);
        reveal_strlit("mts");
        assert("jsx"@[0] != "mts"@[0]);
        reveal_strlit("ts");
        assert("jsx"@.len() != "ts"@.len());
        reveal_strlit("tsx");
        assert("jsx"@[0] != "tsx"@[0]);
    }
    assert(language_of("js"@) == "javascript"@) by {
        reveal_strlit("js");
        reveal_strlit("javascript");
        assert("js"@.len() != "javascript"@.len());
        reveal_strlit("cts");
        assert("js"@.len() != "cts"@.len());
        reveal_strlit("jsx");
        assert("js"@.len() != "jsx"@.len());
        reveal_strlit("mts");
        assert("js"@.len() != "mts"@.len());
        reveal_strlit("ts");
        assert("js"@[0] != "ts"@[0]);
        reveal_strlit("tsx");
        assert("js"@.len() != "tsx"@.len());
    }
    assert(language_of("mjs"@) == "javascript"@) by {
        reveal_strlit("mjs");
        reveal_strlit("javascript");
        assert("mjs"@.len() != "javascript"@.len());
        reveal_strlit("cts");
        assert("mjs"@[0] != "cts"@[0]);
        reveal_strlit("js");
        assert("mjs"@.len() != "js"@.len());
        reveal_strlit("jsx");
        assert("mjs"@[0] != "jsx"@[0]);
        reveal_strlit("mts");
        assert("mjs"@[1] != "mts"@[1]);
        reveal_strlit("ts");
        assert("mjs"@.len() != "ts"@.len());
        reveal_strlit("tsx");
        assert("mjs"@[0] != "tsx"@[0]);
    }
    assert(language_of("cjs"@) == "javascript"@) by {
        reveal_strlit("cjs");
        reveal_strlit("javascript");
        assert("cjs"@.len() != "javascript"@.len());
        reveal_strlit("cts");
        assert("cjs"@[1] != "cts"@[1]);
        reveal_strlit("js");
        assert("cjs"@.len() != "js"@.len());
        reveal_strlit("jsx");
        assert("cjs"@[0] != "jsx"@[0]);
        reveal_strlit("mjs");
        assert("cjs"@[0] != "mjs"@[0]);
        reveal_strlit("mts");
        assert("cjs"@[0] != "mts"@[0]);
        reveal_strlit("ts");
        assert("cjs"@.len() != "ts"@.len());
        reveal_strlit("tsx");
        assert("cjs"@[0] != "tsx"@[0]);
    }
    assert(language_of("rs"@) == "rust"@) by {
        reveal_strlit("rs");
        reveal_strlit("rust");
        assert("rs"@.len() != "rust"@.len());
        reveal_strlit("cjs");
        assert("rs"@.len() != "cjs"@.len());
        reveal_strlit("cts");
        assert("rs"@.len() != "cts"@.len());
        reveal_strlit("js");
        assert("rs"@[0] != "js"@[0]);
        reveal_strlit("jsx");
        assert("rs"@.len() != "jsx"@.len());
        reveal_strlit("mjs");
        assert("rs"@.len() != "mjs"@.len());
        reveal_strlit("mts");
        assert("rs"@.len() != "mts"@.len());
        reveal_strlit("ts");
        assert("rs"@[0] != "ts"@[0]);
        reveal_strlit("tsx");
        assert("rs"@.len() != "tsx"@.len());
    }
    assert(language_of("py"@) == "python"@) by {
        reveal_strlit("py");
        reveal_strlit("python");
        assert("py"@.len() != "python"@.len());
        reveal_strlit("cjs");
        assert("py"@.len() != "cjs"@.len());
        reveal_strlit("cts");
        assert("py"@.len() != "cts"@.len());
        reveal_strlit("js");
        assert("py"@[0] != "js"@[0]);
        reveal_strlit("jsx");
        assert("py"@.len() != "jsx"@.len());
        reveal_strlit("mjs");
        assert("py"@.len() != "mjs"@.len());
        reveal_strlit("mts");
        assert("py"@.len() != "mts"@.len());
        reveal_strlit("rs");
        assert("py"@[0] != "rs"@[0]);
        reveal_strlit("ts");
        assert("py"@[0] != "ts"@[0]);
        reveal_strlit("tsx");
        assert("py"@.len() != "tsx"@.len());
    }
    assert(language_of("json"@) == "json"@) by {
        reveal_strlit("json");
        reveal_strlit("json");
        reveal_strlit("cjs");
        assert("json"@.len() != "cjs"@.len());
        reveal_strlit("cts");
        assert("json"@.len() != "cts"@.len());
        reveal_strlit("js");
        assert("json"@.len() != "js"@.len());
        reveal_strlit("jsx");
        assert("json"@.len() != "jsx"@.len());
        reveal_strlit("mjs");
        assert("json"@.len() != "mjs"@.len());
        reveal_strlit("mts");
        assert("json"@.len() != "mts"@.len());
        reveal_strlit("py");
        assert("json"@.len() != "py"@.len());
        reveal_strlit("rs");
        assert("json"@.len() != "rs"@.len());
        reveal_strlit("ts");
        assert("json"@.len() != "ts"@.len());
        reveal_strlit("tsx");
        assert("json"@.len() != "tsx"@.len());
    }
    assert(language_of("jsonc"@) == "jsonc"@) by {
        reveal_strlit("jsonc");
        reveal_strlit("jsonc");
        reveal_strlit("cjs");
        assert("jsonc"@.len() != "cjs"@.len());
        reveal_strlit("cts");
        assert("jsonc"@.len() != "cts"@.len());
        reveal_strlit("js");
        assert("jsonc"@.len() != "js"@.len());
        reveal_strlit("json");
        assert("jsonc"@.len() != "json"@.len());
        reveal_strlit("jsx");
        assert("jsonc"@.len() != "jsx"@.len());
        reveal_strlit("mjs");
        assert("jsonc"@.len() != "mjs"@.len());
        reveal_strlit("mts");
        assert("jsonc"@.len() != "mts"@.len());
        reveal_strlit("py");
        assert("jsonc"@.len() != "py"@.len());
        reveal_strlit("rs");
        assert("jsonc"@.len() != "rs"@.len());
        reveal_strlit("ts");
        assert("jsonc"@.len() != "ts"@.len());
        reveal_strlit("tsx");
        assert("jsonc"@.len() != "tsx"@.len());
    }
    assert(language_of("toml"@) == "toml"@) by {
        reveal_strlit("toml");
        reveal_strlit("toml");
        reveal_strlit("cjs");
        assert("toml"@.len() != "cjs"@.len());
        reveal_strlit("cts");
        assert("toml"@.len() != "cts"@.len());
        reveal_strlit("js");
        assert("toml"@.len() != "js"@.len());
        reveal_strlit("json");
        assert("toml"@[0] != "json"@[0]);
        reveal_strlit("jsonc");
        assert("toml"@.len() != "jsonc"@.len());
        reveal_strlit("jsx");
        assert("toml"@.len() != "jsx"@.len());
        reveal_strlit("mjs");
        assert("toml"@.len() != "mjs"@.len());
        reveal_strlit("mts");
        assert("toml"@.len() != "mts"@.len());
        reveal_strlit("py");
        assert("toml"@.len() != "py"@.len());
        reveal_strlit("rs");
        assert("toml"@.len() != "rs"@.len());
        reveal_strlit("ts");
        assert("toml"@.len() != "ts"@.len());
        reveal_strlit("tsx");
        assert("toml"@.len() != "tsx"@.len());
    }
    assert(language_of("yaml"@) == "yaml"@) by {
        reveal_strlit("yaml");
        reveal_strlit("yaml");
        reveal_strlit("cjs");
        assert("yaml"@.len() != "cjs"@.len());
        reveal_strlit("cts");
        assert("yaml"@.len() != "cts"@.len());
        reveal_strlit("js");
        assert("yaml"@.len() != "js"@.len());
        reveal_strlit("json");
        assert("yaml"@[0] != "json"@[0]);
        reveal_strlit("jsonc");
        assert("yaml"@.len() != "jsonc"@.len());
        reveal_strlit("jsx");
        assert("yaml"@.len() != "jsx"@.len());
        reveal_strlit("mjs");
        assert("yaml"@.len() != "mjs"@.len());
        reveal_strlit("mts");
        assert("yaml"@.len() != "mts"@.len());
        reveal_strlit("py");
        assert("yaml"@.len() != "py"@.len());
        reveal_strlit("rs");
        assert("yaml"@.len() != "rs"@.len());
        reveal_strlit("toml");
        assert("yaml"@[0] != "toml"@[0]);
        reveal_strlit("ts");
        assert("yaml"@.len() != "ts"@.len());
        reveal_strlit("tsx");
        assert("yaml"@.len() != "tsx"@.len());
    }
    assert(language_of("yml"@) == "yaml"@) by {
        reveal_strlit("yml");
        reveal_strlit("yaml");
        assert("yml"@.len() != "yaml"@.len());
        reveal_strlit("cjs");
        assert("yml"@[0] != "cjs"@[0]);
        reveal_strlit("cts");
        assert("yml"@[0] != "cts"@[0]);
        reveal_strlit("js");
        assert("yml"@.len() != "js"@.len());
        reveal_strlit("json");
        assert("yml"@.len() != "json"@.len());
        reveal_strlit("jsonc");
        assert("yml"@.len() != "jsonc"@.len());
        reveal_strlit("jsx");
        assert("yml"@[0] != "jsx"@[0]);
        reveal_strlit("mjs");
        assert("yml"@[0] != "mjs"@[0]);
        reveal_strlit("mts");
        assert("yml"@[0] != "mts"@[0]);
        reveal_strlit("py");
        assert("yml"@.len() != "py"@.len());
        reveal_strlit("rs");
        assert("yml"@.len() != "rs"@.len());
        reveal_strlit("toml");
        assert("yml"@.len() != "toml"@.len());
        reveal_strlit("ts");
        assert("yml"@.len() != "ts"@.len());
        reveal_strlit("tsx");
        assert("yml"@[0] != "tsx"@[0]);
        reveal_strlit("yaml");
        assert("yml"@.len() != "yaml"@.len());
    }
    assert(language_of("md"@) == "markdown"@) by {
        reveal_strlit("md");
        reveal_strlit("markdown");
        assert("md"@.len() != "markdown"@.len());
        reveal_strlit("cjs");
        assert("md"@.len() != "cjs"@.len());
        reveal_strlit("cts");
        assert("md"@.len() != "cts"@.len());
        reveal_strlit("js");
        assert("md"@[0] != "js"@[0]);
        reveal_strlit("json");
        assert("md"@.len() != "json"@.len());
        reveal_strlit("jsonc");
        assert("md"@.len() != "jsonc"@.len());
        reveal_strlit("jsx");
        assert("md"@.len() != "jsx"@.len());
        reveal_strlit("mjs");
        assert("md"@.len() != "mjs"@.len());
        reveal_strlit("mts");
        assert("md"@.len() != "mts"@.len());
        reveal_strlit("py");
        assert("md"@[0] != "py"@[0]);
        reveal_strlit("rs");
        assert("md"@[0] != "rs"@[0]);
        reveal_strlit("toml");
        assert("md"@.len() != "toml"@.len());
        reveal_strlit("ts");
        assert("md"@[0] != "ts"@[0]);
        reveal_strlit("tsx");
        assert("md"@.len() != "tsx"@.len());
        reveal_strlit("yaml");
        assert("md"@.len() != "yaml"@.len());
        reveal_strlit("yml");
        assert("md"@.len() != "yml"@.len());
    }
    assert(language_of("html"@) == "html"@) by {
        reveal_strlit("html");
        reveal_strlit("html");
        reveal_strlit("cjs");
        assert("html"@.len() != "cjs"@.len());
        reveal_strlit("cts");
        assert("html"@.len() != "cts"@.len());
        reveal_strlit("js");
        assert("html"@.len() != "js"@.len());
        reveal_strlit("json");
        assert("html"@[0] != "json"@[0]);
        reveal_strlit("jsonc");
        assert("html"@.len() != "jsonc"@.len());
        reveal_strlit("jsx");
        assert("html"@.len() != "jsx"@.len());
        reveal_strlit("md");
        assert("html"@.len() != "md"@.len());
        reveal_strlit("mjs");
        assert("html"@.len() != "mjs"@.len());
        reveal_strlit("mts");
        assert("html"@.len() != "mts"@.len());
        reveal_strlit("py");
        assert("html"@.len() != "py"@.len());
        reveal_strlit("rs");
        assert("html"@.len() != "rs"@.len());
        reveal_strlit("toml");
        assert("html"@[0] != "toml"@[0]);
        reveal_strlit("ts");
        assert("html"@.len() != "ts"@.len());
        reveal_strlit("tsx");
        assert("html"@.len() != "tsx"@.len());
        reveal_strlit("yaml");
        assert("html"@[0] != "yaml"@[0]);
        reveal_strlit("yml");
        assert("html"@.len() != "yml"@.len());
    }
    assert(language_of("css"@) == "css"@) by {
        reveal_strlit("css");
        reveal_strlit("css");
        reveal_strlit("cjs");
        assert("css"@[1] != "cjs"@[1]);
        reveal_strlit("cts");
        assert("css"@[1] != "cts"@[1]);
        reveal_strlit("html");
        assert("css"@.len() != "html"@.len());
        reveal_strlit("js");
        assert("css"@.len() != "js"@.len());
        reveal_strlit("json");
        assert("css"@.len() != "json"@.len());
        reveal_strlit("jsonc");
        assert("css"@.len() != "jsonc"@.len());
        reveal_strlit("jsx");
        assert("css"@[0] != "jsx"@[0]);
        reveal_strlit("md");
        assert("css"@.len() != "md"@.len());
        reveal_strlit("mjs");
        assert("css"@[0] != "mjs"@[0]);
        reveal_strlit("mts");
        assert("css"@[0] != "mts"@[0]);
        reveal_strlit("py");
        assert("css"@.len() != "py"@.len());
        reveal_strlit("rs");
        assert("css"@.len() != "rs"@.len());
        reveal_strlit("toml");
        assert("css"@.len() != "toml"@.len());
        reveal_strlit("ts");
        assert("css"@.len() != "ts"@.len());
        reveal_strlit("tsx");
        assert("css"@[0] != "tsx"@[0]);
        reveal_strlit("yaml");
        assert("css"@.len() != "yaml"@.len());
        reveal_strlit("yml");
        assert("css"@[0] != "yml"@[0]);
    }
    assert(language_of("scss"@) == "scss"@) by {
        reveal_strlit("scss");
        reveal_strlit("scss");
        reveal_strlit("cjs");
        assert("scss"@.len() != "cjs"@.len());
        reveal_strlit("css");
        assert("scss"@.len() != "css"@.len());
        reveal_strlit("cts");
        assert("scss"@.len() != "cts"@.len());
        reveal_strlit("html");
        assert("scss"@[0] != "html"@[0]);
        reveal_strlit("js");
        assert("scss"@.len() != "js"@.len());
        reveal_strlit("json");
        assert("scss"@[0] != "json"@[0]);
        reveal_strlit("jsonc");
        assert("scss"@.len() != "jsonc"@.len());
        reveal_strlit("jsx");
        assert("scss"@.len() != "jsx"@.len());
        reveal_strlit("md");
        assert("scss"@.len() != "md"@.len());
        reveal_strlit("mjs");
        assert("scss"@.len() != "mjs"@.len());
        reveal_strlit("mts");
        assert("scss"@.len() != "mts"@.len());
        reveal_strlit("py");
        assert("scss"@.len() != "py"@.len());
        reveal_strlit("rs");
        assert("scss"@.len() != "rs"@.len());
        reveal_strlit("toml");
        assert("scss"@[0] != "toml"@[0]);
        reveal_strlit("ts");
        assert("scss"@.len() != "ts"@.len());
        reveal_strlit("tsx");
        assert("scss"@.len() != "tsx"@.len());
        reveal_strlit("yaml");
        assert("scss"@[0] != "yaml"@[0]);
        reveal_strlit("yml");
        assert("scss"@.len() != "yml"@.len());
    }
    assert(language_of("go"@) == "go"@) by {
        reveal_strlit("go");
        reveal_strlit("go");
        reveal_strlit("cjs");
        assert("go"@.len() != "cjs"@.len());
        reveal_strlit("css");
        assert("go"@.len() != "css"@.len());
        reveal_strlit("cts");
        assert("go"@.len() != "cts"@.len());
        reveal_strlit("html");
        assert("go"@.len() != "html"@.len());
        reveal_strlit("js");
        assert("go"@[0] != "js"@[0]);
        reveal_strlit("json");
        assert("go"@.len() != "json"@.len());
        reveal_strlit("jsonc");
        assert("go"@.len() != "jsonc"@.len());
        reveal_strlit("jsx");
        assert("go"@.len() != "jsx"@.len());
        reveal_strlit("md");
        assert("go"@[0] != "md"@[0]);
        reveal_strlit("mjs");
        assert("go"@.len() != "mjs"@.len());
        reveal_strlit("mts");
        assert("go"@.len() != "mts"@.len());
        reveal_strlit("py");
        assert("go"@[0] != "py"@[0]);
        reveal_strlit("rs");
        assert("go"@[0] != "rs"@[0]);
        reveal_strlit("scss");
        assert("go"@.len() != "scss"@.len());
        reveal_strlit("toml");
        assert("go"@.len() != "toml"@.len());
        reveal_strlit("ts");
        assert("go"@[0] != "ts"@[0]);
        reveal_strlit("tsx");
        assert("go"@.len() != "tsx"@.len());
        reveal_strlit("yaml");
        assert("go"@.len() != "yaml"@.len());
        reveal_strlit("yml");
        assert("go"@.len() != "yml"@.len());
    }
    assert(language_of("c"@) == "c"@) by {
        reveal_strlit("c");
        reveal_strlit("c");
        reveal_strlit("cjs");
        assert("c"@.len() != "cjs"@.len());
        reveal_strlit("css");
        assert("c"@.len() != "css"@.len());
        reveal_strlit("cts");
        assert("c"@.len() != "cts"@.len());
        reveal_strlit("go");
        assert("c"@.len() != "go"@.len());
        reveal_strlit("html");
        assert("c"@.len() != "html"@.len());
        reveal_strlit("js");
        assert("c"@.len() != "js"@.len());
        reveal_strlit("json");
        assert("c"@.len() != "json"@.len());
        reveal_strlit("jsonc");
        assert("c"@.len() != "jsonc"@.len());
        reveal_strlit("jsx");
        assert("c"@.len() != "jsx"@.len());
        reveal_strlit("md");
        assert("c"@.len() != "md"@.len());
        reveal_strlit("mjs");
        assert("c"@.len() != "mjs"@.len());
        reveal_strlit("mts");
        assert("c"@.len() != "mts"@.len());
        reveal_strlit("py");
        assert("c"@.len() != "py"@.len());
        reveal_strlit("rs");
        assert("c"@.len() != "rs"@.len());
        reveal_strlit("scss");
        assert("c"@.len() != "scss"@.len());
        reveal_strlit("toml");
        assert("c"@.len() != "toml"@.len());
        reveal_strlit("ts");
        assert("c"@.len() != "ts"@.len());
        reveal_strlit("tsx");
        assert("c"@.len() != "tsx"@.len());
        reveal_strlit("yaml");
        assert("c"@.len() != "yaml"@.len());
        reveal_strlit("yml");
        assert("c"@.len() != "yml"@.len());
    }
    assert(language_of("h"@) == "c"@) by {
        reveal_strlit("h");
        reveal_strlit("c");
        reveal_strlit("c");
        assert("h"@[0] != "c"@[0]);
        reveal_strlit("cjs");
        assert("h"@.len() != "cjs"@.len());
        reveal_strlit("css");
        assert("h"@.len() != "css"@.len());
        reveal_strlit("cts");
        assert("h"@.len() != "cts"@.len());
        reveal_strlit("go");
        assert("h"@.len() != "go"@.len());
        reveal_strlit("html");
        assert("h"@.len() != "html"@.len());
        reveal_strlit("js");
        assert("h"@.len() != "js"@.len());
        reveal_strlit("json");
        assert("h"@.len() != "json"@.len());
        reveal_strlit("jsonc");
        assert("h"@.len() != "jsonc"@.len());
        reveal_strlit("jsx");
        assert("h"@.len() != "jsx"@.len());
        reveal_strlit("md");
        assert("h"@.len() != "md"@.len());
        reveal_strlit("mjs");
        assert("h"@.len() != "mjs"@.len());
        reveal_strlit("mts");
        assert("h"@.len() != "mts"@.len());
        reveal_strlit("py");
        assert("h"@.len() != "py"@.len());
        reveal_strlit("rs");
        assert("h"@.len() != "rs"@.len());
        reveal_strlit("scss");
        assert("h"@.len() != "scss"@.len());
        reveal_strlit("toml");
        assert("h"@.len() != "toml"@.len());
        reveal_strlit("ts");
        assert("h"@.len() != "ts"@.len());
        reveal_strlit("tsx");
        assert("h"@.len() != "tsx"@.len());
        reveal_strlit("yaml");
        assert("h"@.len() != "yaml"@.len());
        reveal_strlit("yml");
        assert("h"@.len() != "yml"@.len());
    }
    assert(language_of("cpp"@) == "cpp"@) by {
        reveal_strlit("cpp");
        reveal_strlit("cpp");
        reveal_strlit("c");
        assert("cpp"@.len() != "c"@.len());
        reveal_strlit("cjs");
        assert("cpp"@[1] != "cjs"@[1]);
        reveal_strlit("css");
        assert("cpp"@[1] != "css"@[1]);
        reveal_strlit("cts");
        assert("cpp"@[1] != "cts"@[1]);
        reveal_strlit("go");
        assert("cpp"@.len() != "go"@.len());
        reveal_strlit("h");
        assert("cpp"@.len() != "h"@.len());
        reveal_strlit("html");
        assert("cpp"@.len() != "html"@.len());
        reveal_strlit("js");
        assert("cpp"@.len() != "js"@.len());
        reveal_strlit("json");
        assert("cpp"@.len() != "json"@.len());
        reveal_strlit("jsonc");
        assert("cpp"@.len() != "jsonc"@.len());
        reveal_strlit("jsx");
        assert("cpp"@[0] != "jsx"@[0]);
        reveal_strlit("md");
        assert("cpp"@.len() != "md"@.len());
        reveal_strlit("mjs");
        assert("cpp"@[0] != "mjs"@[0]);
        reveal_strlit("mts");
        assert("cpp"@[0] != "mts"@[0]);
        reveal_strlit("py");
        assert("cpp"@.len() != "py"@.len());
        reveal_strlit("rs");
        assert("cpp"@.len() != "rs"@.len());
        reveal_strlit("scss");
        assert("cpp"@.len() != "scss"@.len());
        reveal_strlit("toml");
        assert("cpp"@.len() != "toml"@.len());
        reveal_strlit("ts");
        assert("cpp"@.len() != "ts"@.len());
        reveal_strlit("tsx");
        assert("cpp"@[0] != "tsx"@[0]);
        reveal_strlit("yaml");
        assert("cpp"@.len() != "yaml"@.len());
        reveal_strlit("yml");
        assert("cpp"@[0] != "yml"@[0]);
    }
    assert(language_of("cc"@) == "cpp"@) by {
        reveal_strlit("cc");
        reveal_strlit("cpp");
        assert("cc"@.len() != "cpp"@.len());
        reveal_strlit("c");
        assert("cc"@.len() != "c"@.len());
        reveal_strlit("cjs");
        assert("cc"@.len() != "cjs"@.len());
        reveal_strlit("cpp");
        assert("cc"@.len() != "cpp"@.len());
        reveal_strlit("css");
        assert("cc"@.len() != "css"@.len());
        reveal_strlit("cts");
        assert("cc"@.len() != "cts"@.len());
        reveal_strlit("go");
        assert("cc"@[0] != "go"@[0]);
        reveal_strlit("h");
        assert("cc"@.len() != "h"@.len());
        reveal_strlit("html");
        assert("cc"@.len() != "html"@.len());
        reveal_strlit("js");
        assert("cc"@[0] != "js"@[0]);
        reveal_strlit("json");
        assert("cc"@.len() != "json"@.len());
        reveal_strlit("jsonc");
        assert("cc"@.len() != "jsonc"@.len());
        reveal_strlit("jsx");
        assert("cc"@.len() != "jsx"@.len());
        reveal_strlit("md");
        assert("cc"@[0] != "md"@[0]);
        reveal_strlit("mjs");
        assert("cc"@.len() != "mjs"@.len());
        reveal_strlit("mts");
        assert("cc"@.len() != "mts"@.len());
        reveal_strlit("py");
        assert("cc"@[0] != "py"@[0]);
        reveal_strlit("rs");
        assert("cc"@[0] != "rs"@[0]);
        reveal_strlit("scss");
        assert("cc"@.len() != "scss"@.len());
        reveal_strlit("toml");
        assert("cc"@.len() != "toml"@.len());
        reveal_strlit("ts");
        assert("cc"@[0] != "ts"@[0]);
        reveal_strlit("tsx");
        assert("cc"@.len() != "tsx"@.len());
        reveal_strlit("yaml");
        assert("cc"@.len() != "yaml"@.len());
        reveal_strlit("yml");
        assert("cc"@.len() != "yml"@.len());
    }
    assert(language_of("hpp"@) == "cpp"@) by {
        reveal_strlit("hpp");
        reveal_strlit("cpp");
        reveal_strlit("c");
        assert("hpp"@.len() != "c"@.len());
        reveal_strlit("cc");
        assert("hpp"@.len() != "cc"@.len());
        reveal_strlit("cjs");
        assert("hpp"@[0] != "cjs"@[0]);
        reveal_strlit("cpp");
        assert("hpp"@[0] != "cpp"@[0]);
        reveal_strlit("css");
        assert("hpp"@[0] != "css"@[0]);
        reveal_strlit("cts");
        assert("hpp"@[0] != "cts"@[0]);
        reveal_strlit("go");
        assert("hpp"@.len() != "go"@.len());
        reveal_strlit("h");
        assert("hpp"@.len() != "h"@.len());
        reveal_strlit("html");
        assert("hpp"@.len() != "html"@.len());
        reveal_strlit("js");
        assert("hpp"@.len() != "js"@.len());
        reveal_strlit("json");
        assert("hpp"@.len() != "json"@.len());
        reveal_strlit("jsonc");
        assert("hpp"@.len() != "jsonc"@.len());
        reveal_strlit("jsx");
        assert("hpp"@[0] != "jsx"@[0]);
        reveal_strlit("md");
        assert("hpp"@.len() != "md"@.len());
        reveal_strlit("mjs");
        assert("hpp"@[0] != "mjs"@[0]);
        reveal_strlit("mts");
        assert("hpp"@[0] != "mts"@[0]);
        reveal_strlit("py");
        assert("hpp"@.len() != "py"@.len());
        reveal_strlit("rs");
        assert("hpp"@.len() != "rs"@.len());
        reveal_strlit("scss");
        assert("hpp"@.len() != "scss"@.len());
        reveal_strlit("toml");
        assert("hpp"@.len() != "toml"@.len());
        reveal_strlit("ts");
        assert("hpp"@.len() != "ts"@.len());
        reveal_strlit("tsx");
        assert("hpp"@[0] != "tsx"@[0]);
        reveal_strlit("yaml");
        assert("hpp"@.len() != "yaml"@.len());
        reveal_strlit("yml");
        assert("hpp"@[0] != "yml"@[0]);
    }
    assert(language_of("sh"@) == "bash"@) by {
        reveal_strlit("sh");
        reveal_strlit("bash");
        assert("sh"@.len() != "bash"@.len());
        reveal_strlit("c");
        assert("sh"@.len() != "c"@.len());
        reveal_strlit("cc");
        assert("sh"@[0] != "cc"@[0]);
        reveal_strlit("cjs");
        assert("sh"@.len() != "cjs"@.len());
        reveal_strlit("cpp");
        assert("sh"@.len() != "cpp"@.len());
        reveal_strlit("css");
        assert("sh"@.len() != "css"@.len());
        reveal_strlit("cts");
        assert("sh"@.len() != "cts"@.len());
        reveal_strlit("go");
        assert("sh"@[0] != "go"@[0]);
        reveal_strlit("h");
        assert("sh"@.len() != "h"@.len());
        reveal_strlit("hpp");
        assert("sh"@.len() != "hpp"@.len());
        reveal_strlit("html");
        assert("sh"@.len() != "html"@.len());
        reveal_strlit("js");
        assert("sh"@[0] != "js"@[0]);
        reveal_strlit("json");
        assert("sh"@.len() != "json"@.len());
        reveal_strlit("jsonc");
        assert("sh"@.len() != "jsonc"@.len());
        reveal_strlit("jsx");
        assert("sh"@.len() != "jsx"@.len());
        reveal_strlit("md");
        assert("sh"@[0] != "md"@[0]);
        reveal_strlit("mjs");
        assert("sh"@.len() != "mjs"@.len());
        reveal_strlit("mts");
        assert("sh"@.len() != "mts"@.len());
        reveal_strlit("py");
        assert("sh"@[0] != "py"@[0]);
        reveal_strlit("rs");
        assert("sh"@[0] != "rs"@[0]);
        reveal_strlit("scss");
        assert("sh"@.len() != "scss"@.len());
        reveal_strlit("toml");
        assert("sh"@.len() != "toml"@.len());
        reveal_strlit("ts");
        assert("sh"@[0] != "ts"@[0]);
        reveal_strlit("tsx");
        assert("sh"@.len() != "tsx"@.len());
        reveal_strlit("yaml");
        assert("sh"@.len() != "yaml"@.len());
        reveal_strlit("yml");
        assert("sh"@.len() != "yml"@.len());
    }
    assert(language_of("bash"@) == "bash"@) by {
        reveal_strlit("bash");
        reveal_strlit("bash");
        reveal_strlit("c");
        assert("bash"@.len() != "c"@.len());
        reveal_strlit("cc");
        assert("bash"@.len() != "cc"@.len());
        reveal_strlit("cjs");
        assert("bash"@.len() != "cjs"@.len());
        reveal_strlit("cpp");
        assert("bash"@.len() != "cpp"@.len());
        reveal_strlit("css");
        assert("bash"@.len() != "css"@.len());
        reveal_strlit("cts");
        assert("bash"@.len() != "cts"@.len());
        reveal_strlit("go");
        assert("bash"@.len() != "go"@.len());
        reveal_strlit("h");
        assert("bash"@.len() != "h"@.len());
        reveal_strlit("hpp");
        assert("bash"@.len() != "hpp"@.len());
        reveal_strlit("html");
        assert("bash"@[0] != "html"@[0]);
        reveal_strlit("js");
        assert("bash"@.len() != "js"@.len());
        reveal_strlit("json");
        assert("bash"@[0] != "json"@[0]);
        reveal_strlit("jsonc");
        assert("bash"@.len() != "jsonc"@.len());
        reveal_strlit("jsx");
        assert("bash"@.len() != "jsx"@.len());
        reveal_strlit("md");
        assert("bash"@.len() != "md"@.len());
        reveal_strlit("mjs");
        assert("bash"@.len() != "mjs"@.len());
        reveal_strlit("mts");
        assert("bash"@.len() != "mts"@.len());
        reveal_strlit("py");
        assert("bash"@.len() != "py"@.len());
        reveal_strlit("rs");
        assert("bash"@.len() != "rs"@.len());
        reveal_strlit("scss");
        assert("bash"@[0] != "scss"@[0]);
        reveal_strlit("sh");
        assert("bash"@.len() != "sh"@.len());
        reveal_strlit("toml");
        assert("bash"@[0] != "toml"@[0]);
        reveal_strlit("ts");
        assert("bash"@.len() != "ts"@.len());
        reveal_strlit("tsx");
        assert("bash"@.len() != "tsx"@.len());
        reveal_strlit("yaml");
        assert("bash"@[0] != "yaml"@[0]);
        reveal_strlit("yml");
        assert("bash"@.len() != "yml"@.len());
    }
    assert(language_of("ps1"@) == "powershell"@) by {
        reveal_strlit("ps1");
        reveal_strlit("powershell");
        assert("ps1"@.len() != "powershell"@.len());
        reveal_strlit("bash");
        assert("ps1"@.len() != "bash"@.len());
        reveal_strlit("c");
        assert("ps1"@.len() != "c"@.len());
        reveal_strlit("cc");
        assert("ps1"@.len() != "cc"@.len());
        reveal_strlit("cjs");
        assert("ps1"@[0] != "cjs"@[0]);
        reveal_strlit("cpp");
        assert("ps1"@[0] != "cpp"@[0]);
        reveal_strlit("css");
        assert("ps1"@[0] != "css"@[0]);
        reveal_strlit("cts");
        assert("ps1"@[0] != "cts"@[0]);
        reveal_strlit("go");
        assert("ps1"@.len() != "go"@.len());
        reveal_strlit("h");
        assert("ps1"@.len() != "h"@.len());
        reveal_strlit("hpp");
        assert("ps1"@[0] != "hpp"@[0]);
        reveal_strlit("html");
        assert("ps1"@.len() != "html"@.len());
        reveal_strlit("js");
        assert("ps1"@.len() != "js"@.len());
        reveal_strlit("json");
        assert("ps1"@.len() != "json"@.len());
        reveal_strlit("jsonc");
        assert("ps1"@.len() != "jsonc"@.len());
        reveal_strlit("jsx");
        assert("ps1"@[0] != "jsx"@[0]);
        reveal_strlit("md");
        assert("ps1"@.len() != "md"@.len());
        reveal_strlit("mjs");
        assert("ps1"@[0] != "mjs"@[0]);
        reveal_strlit("mts");
        assert("ps1"@[0] != "mts"@[0]);
        reveal_strlit("py");
        assert("ps1"@.len() != "py"@.len());
        reveal_strlit("rs");
        assert("ps1"@.len() != "rs"@.len());
        reveal_strlit("scss");
        assert("ps1"@.len() != "scss"@.len());
        reveal_strlit("sh");
        assert("ps1"@.len() != "sh"@.len());
        reveal_strlit("toml");
        assert("ps1"@.len() != "toml"@.len());
        reveal_strlit("ts");
        assert("ps1"@.len() != "ts"@.len());
        reveal_strlit("tsx");
        assert("ps1"@[0] != "tsx"@[0]);
        reveal_strlit("yaml");
        assert("ps1"@.len() != "yaml"@.len());
        reveal_strlit("yml");
        assert("ps1"@[0] != "yml"@[0]);
    }
    assert(language_of("sql"@) == "sql"@) by {
        reveal_strlit("sql");
        reveal_strlit("sql");
        reveal_strlit("bash");
        assert("sql"@.len() != "bash"@.len());
        reveal_strlit("c");
        assert("sql"@.len() != "c"@.len());
        reveal_strlit("cc");
        assert("sql"@.len() != "cc"@.len());
        reveal_strlit("cjs");
        assert("sql"@[0] != "cjs"@[0]);
        reveal_strlit("cpp");
        assert("sql"@[0] != "cpp"@[0]);
        reveal_strlit("css");
        assert("sql"@[0] != "css"@[0]);
        reveal_strlit("cts");
        assert("sql"@[0] != "cts"@[0]);
        reveal_strlit("go");
        assert("sql"@.len() != "go"@.len());
        reveal_strlit("h");
        assert("sql"@.len() != "h"@.len());
        reveal_strlit("hpp");
        assert("sql"@[0] != "hpp"@[0]);
        reveal_strlit("html");
        assert("sql"@.len() != "html"@.len());
        reveal_strlit("js");
        assert("sql"@.len() != "js"@.len());
        reveal_strlit("json");
        assert("sql"@.len() != "json"@.len());
        reveal_strlit("jsonc");
        assert("sql"@.len() != "jsonc"@.len());
        reveal_strlit("jsx");
        assert("sql"@[0] != "jsx"@[0]);
        reveal_strlit("md");
        assert("sql"@.len() != "md"@.len());
        reveal_strlit("mjs");
        assert("sql"@[0] != "mjs"@[0]);
        reveal_strlit("mts");
        assert("sql"@[0] != "mts"@[0]);
        reveal_strlit("ps1");
        assert("sql"@[0] != "ps1"@[0]);
        reveal_strlit("py");
        assert("sql"@.len() != "py"@.len());
        reveal_strlit("rs");
        assert("sql"@.len() != "rs"@.len());
        reveal_strlit("scss");
        assert("sql"@.len() != "scss"@.len());
        reveal_strlit("sh");
        assert("sql"@.len() != "sh"@.len());
        reveal_strlit("toml");
        assert("sql"@.len() != "toml"@.len());
        reveal_strlit("ts");
        assert("sql"@.len() != "ts"@.len());
        reveal_strlit("tsx");
        assert("sql"@[0] != "tsx"@[0]);
        reveal_strlit("yaml");
        assert("sql"@.len() != "yaml"@.len());
        reveal_strlit("yml");
        assert("sql"@[0] != "yml"@[0]);
    }
    assert(language_of("txt"@) == "text"@) by {
        reveal_strlit("txt");
        reveal_strlit("text");
        assert("txt"@.len() != "text"@.len());
        reveal_strlit("bash");
        assert("txt"@.len() != "bash"@.len());
        reveal_strlit("c");
        assert("txt"@.len() != "c"@.len());
        reveal_strlit("cc");
        assert("txt"@.len() != "cc"@.len());
        reveal_strlit("cjs");
        assert("txt"@[0] != "cjs"@[0]);
        reveal_strlit("cpp");
        assert("txt"@[0] != "cpp"@[0]);
        reveal_strlit("css");
        assert("txt"@[0] != "css"@[0]);
        reveal_strlit("cts");
        assert("txt"@[0] != "cts"@[0]);
        reveal_strlit("go");
        assert("txt"@.len() != "go"@.len());
        reveal_strlit("h");
        assert("txt"@.len() != "h"@.len());
        reveal_strlit("hpp");
        assert("txt"@[0] != "hpp"@[0]);
        reveal_strlit("html");
        assert("txt"@.len() != "html"@.len());
        reveal_strlit("js");
        assert("txt"@.len() != "js"@.len());
        reveal_strlit("json");
        assert("txt"@.len() != "json"@.len());
        reveal_strlit("jsonc");
        assert("txt"@.len() != "jsonc"@.len());
        reveal_strlit("jsx");
        assert("txt"@[0] != "jsx"@[0]);
        reveal_strlit("md");
        assert("txt"@.len() != "md"@.len());
        reveal_strlit("mjs");
        assert("txt"@[0] != "mjs"@[0]);
        reveal_strlit("mts");
        assert("txt"@[0] != "mts"@[0]);
        reveal_strlit("ps1");
        assert("txt"@[0] != "ps1"@[0]);
        reveal_strlit("py");
        assert("txt"@.len() != "py"@.len());
        reveal_strlit("rs");
        assert("txt"@.len() != "rs"@.len());
        reveal_strlit("scss");
        assert("txt"@.len() != "scss"@.len());
        reveal_strlit("sh");
        assert("txt"@.len() != "sh"@.len());
        reveal_strlit("sql");
        assert("txt"@[0] != "sql"@[0]);
        reveal_strlit("toml");
        assert("txt"@.len() != "toml"@.len());
        reveal_strlit("ts");
        assert("txt"@.len() != "ts"@.len());
        reveal_strlit("tsx");
        assert("txt"@[1] != "tsx"@[1]);
        reveal_strlit("yaml");
        assert("txt"@.len() != "yaml"@.len());
        reveal_strlit("yml");
        assert("txt"@[0] != "yml"@[0]);
    }
}

/// The language written after the opening code fence for a file with the
/// extension `ext`, compared without regard to case.
pub fn extension_to_language(ext: &str) -> (res: &'static str)
    ensures
        res@ == language_of(spec_to_lowercase(ext@)),
        is_ascii_text(ext@) ==> res@ == language_of(ascii_lower(ext@)),
{
    let lower = to_lowercase(ext);
    let e = lower.as_str();
    if str_eq(e, "tsx") {
        "tsx"
    } else if str_eq(e, "ts") || str_eq(e, "mts") || str_eq(e, "cts") {
        "typescript"
    } else if str_eq(e, "jsx") {
        "jsx"
    } else if str_eq(e, "js") || str_eq(e, "mjs") || str_eq(e, "cjs") {
        "javascript"
    } else if str_eq(e, "rs") {
        "rust"
    } else if str_eq(e, "py") {
        "python"
    } else if str_eq(e, "json") {
        "json"
    } else if str_eq(e, "jsonc") {
        "jsonc"
    } else if str_eq(e, "toml") {
        "toml"
    } else if str_eq(e, "yaml") || str_eq(e, "yml") {
        "yaml"
    } else if str_eq(e, "md") {
        "markdown"
    } else if str_eq(e, "html") {
        "html"
    } else if str_eq(e, "css") {
        "css"
    } else if str_eq(e, "scss") {
        "scss"
    } else if str_eq(e, "go") {
        "go"
    } else if str_eq(e, "c") || str_eq(e, "h") {
        "c"
    } else if str_eq(e, "cpp") || str_eq(e, "cc") || str_eq(e, "hpp") {
        "cpp"
    } else if str_eq(e, "sh") || str_eq(e, "bash") {
        "bash"
    } else if str_eq(e, "ps1") {
        "powershell"
    } else if str_eq(e, "sql") {
        "sql"
    } else if str_eq(e, "txt") {
        "text"
    } else {
        ""
    }
}

fn lower_ascii_char(c: char) -> (res: char)
    ensures
        res == ascii_lower_char(c),
{
    if 'A' <= c && c <= 'Z' {
        let code = (c as u32) + 32;
        assert(0x61 <= code <= 0x7a);
        char_from_ascii_letter(code)
    } else {
        c
    }
}

fn char_from_ascii_letter(code: u32) -> (c: char)
    requires
        0x61 <= code <= 0x7a,
    ensures
        c == code as char,
{
    let b = code as u8;
    b as char
}

/// `s` with ASCII capitals turned into small letters.
pub fn to_ascii_lowercase(s: &str) -> (res: String)
    ensures
        res@ == ascii_lower(s@),
{
    let cs = chars_of(s);
    let mut res = String::new();
    let n = cs.len();
    for i in 0..n
        invariant
            n == cs@.len(),
            res@ == ascii_lower(cs@.take(i as int)),
    {
        let d = lower_ascii_char(cs[i]);
        push_char(&mut res, d);
        assert(ascii_lower(cs@.take(i + 1)) =~= ascii_lower(cs@.take(i as int)).push(d));
    }
    assert(cs@.take(n as int) =~= cs@);
    res
}

/// The extension under which the highlighter's syntax set is searched for a
/// file whose extension, lowercased in ASCII, is `ext`: related extensions
/// share one syntax, the others are searched as they are.
pub open spec fn syntax_extension_of(ext: Seq<char>) -> Seq<char> {
    if ext == "js"@ || ext == "mjs"@ || ext == "cjs"@ || ext == "jsx"@ {
        "js"@
    } else if ext == "ts"@ || ext == "mts"@ || ext == "cts"@ || ext == "tsx"@ {
        "js"@
    } else if ext == "css"@ || ext == "scss"@ || ext == "sass"@ {
        "css"@
    } else if ext == "vue"@ {
        "html"@
    } else if ext == "json"@ || ext == "jsonc"@ {
        "json"@
    } else if ext == "yaml"@ || ext == "yml"@ {
        "yaml"@
    } else if ext == "html"@ || ext == "htm"@ {
        "html"@
    } else if ext == "svg"@ || ext == "xml"@ {
        "xml"@
    } else if ext == "md"@ || ext == "markdown"@ {
        "md"@
    } else if ext == "sh"@ || ext == "bash"@ || ext == "zsh"@ {
        "sh"@
    } else if ext == "c"@ || ext == "h"@ {
        "c"@
    } else if ext == "cpp"@ || ext == "cc"@ || ext == "cxx"@ || ext == "hpp"@ {
        "cpp"@
    } else {
        ext
    }
}

/// The extension of a path, lowercased in ASCII, empty where it has none.
pub open spec fn lowered_extension(path: Seq<char>) -> Seq<char> {
    match spec_extension(path) {
        Some(e) => ascii_lower(e),
        None => ascii_lower(Seq::empty()),
    }
}

/// The extension under which the syntax highlighter looks up the syntax for
/// the file at `path`.
pub fn syntax_extension(path: &str) -> (res: String)
    ensures
        res@ == syntax_extension_of(lowered_extension(path@)),
{
    let raw = match extension(path) {
        Some(e) => e,
        None => String::new(),
    };
    let ext = to_ascii_lowercase(raw.as_str());
    let e = ext.as_str();
    let mapped: &str = if str_eq(e, "js") || str_eq(e, "mjs") || str_eq(e, "cjs") || str_eq(
        e,
        "jsx",
    ) {
        "js"
    } else if str_eq(e, "ts") || str_eq(e, "mts") || str_eq(e, "cts") || str_eq(e, "tsx") {
        "js"
    } else if str_eq(e, "css") || str_eq(e, "scss") || str_eq(e, "sass") {
        "css"
    } else if str_eq(e, "vue") {
        "html"
    } else if str_eq(e, "json") || str_eq(e, "jsonc") {
        "json"
    } else if str_eq(e, "yaml") || str_eq(e, "yml") {
        "yaml"
    } else if str_eq(e, "html") || str_eq(e, "htm") {
        "html"
    } else if str_eq(e, "svg") || str_eq(e, "xml") {
        "xml"
    } else if str_eq(e, "md") || str_eq(e, "markdown") {
        "md"
    } else if str_eq(e, "sh") || str_eq(e, "bash") || str_eq(e, "zsh") {
        "sh"
    } else if str_eq(e, "c") || str_eq(e, "h") {
        "c"
    } else if str_eq(e, "cpp") || str_eq(e, "cc") || str_eq(e, "cxx") || str_eq(e, "hpp") {
        "cpp"
    } else {
        e
    };
    mapped.to_string()
}

} // verus!
