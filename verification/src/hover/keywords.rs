//! The hover texts of keywords, built-in types and library functions.
use vstd::prelude::*;
use crate::text::{owned, string_is};

verus! {

/// The fixed hover text of a word, if it has one.
pub open spec fn keyword_hover(word: Seq<char>) -> Option<Seq<char>> {
    if word == "print"@ {
        Some("**`print(value)`**\n\n*Built-in function*\n\nPrints a value to the console.\n\n**Examples:**\n```bolt\nprint(\"Hello, World!\")\nprint(42)\nprint(true)\n```"@)
    } else if word == "val"@ {
        Some("**`val`**\n\n*Keyword*\n\nDeclares an immutable variable (constant).\n\n**Syntax:**\n```bolt\nval name := value\nval name: Type = value\n```\n\n**Examples:**\n```bolt\nval message := \"Hello\"\nval count: Integer = 42\nval arr: Array[Integer] = Array[Integer] { ... }\n```"@)
    } else if word == "var"@ {
        Some("**`var`**\n\n*Keyword*\n\nDeclares a mutable variable.\n\n**Syntax:**\n```bolt\nvar name := value\nvar name: Type = value\n```\n\n**Examples:**\n```bolt\nvar counter := 0\nvar status: String = \"ready\"\n```"@)
    } else if word == "type"@ {
        Some("**`type`**\n\n*Keyword*\n\nDeclares a custom type or generic type.\n\n**Syntax:**\n```bolt\ntype TypeName = { field: Type }\ntype Generic[T] = { data: T }\n```\n\n**Examples:**\n```bolt\ntype Person = { name: String, age: Integer }\ntype Array[T] = { data: ^T, length: Integer }\ntype Result[T] = { value: T, isError: Bool }\n```"@)
    } else if word == "fun"@ {
        Some("**`fun`**\n\n*Keyword*\n\nDeclares a function.\n\n**Syntax:**\n```bolt\nfun name(param: Type): ReturnType {\n    // function body\n    return value\n}\n```\n\n**Example:**\n```bolt\nfun greet(name: String): String {\n    return \"Hello, \" + name\n}\n```"@)
    } else if word == "native"@ {
        Some("**`native`**\n\n*Keyword*\n\nDeclares a native code block for inline C functions.\n\n**Syntax:**\n```bolt\nnative \"C\" {\n    export fun functionName(param: Type): ReturnType\n}\n```\n\n**Example:**\n```bolt\nnative \"C\" {\n    export fun add(a: Integer, b: Integer): Integer\n}\n```"@)
    } else if word == "export"@ {
        Some("**`export`**\n\n*Keyword*\n\nMarks a function as exported from a module.\n\n**Usage:**\n```bolt\nnative \"C\" {\n    export fun readFile(path: String): String\n}\n```"@)
    } else if word == "import"@ {
        Some("**`import`**\n\n*Keyword*\n\nImports functions from modules.\n\n**Syntax:**\n```bolt\nimport { functionName } from \"module\"\n```\n\n**Examples:**\n```bolt\nimport { print } from \"bolt:stdio\"\nimport { readFile, writeFile } from \"bolt:io\"\nimport { length, concat } from \"bolt:string\"\n```"@)
    } else if word == "for"@ {
        Some("**`for`**\n\n*Keyword*\n\nLoop construct with multiple forms.\n\n**For-in loop:**\n```bolt\nfor item in array {\n    print(item)\n}\n```\n\n**Condition loop:**\n```bolt\nfor (condition) {\n    // code\n}\n```\n\n**Works with Array[T] types:**\n```bolt\nfor item in myGenericArray {\n    // item is correctly typed\n}\n```"@)
    } else if word == "Array"@ {
        Some("**`Array[T]`**\n\n*Generic Type*\n\nA generic array type that can hold elements of any type T.\n\n**Definition:**\n```bolt\ntype Array[T] = {\n    data: ^T,\n    length: Integer,\n    capacity: Integer\n}\n```\n\n**Usage:**\n```bolt\nval numbers: Array[Integer] = Array[Integer] { \n    data: &value, length: 1, capacity: 10 \n}\n\nfor item in numbers {\n    print(item)  // item is Integer\n}\n```"@)
    } else if word == "if"@ {
        Some("**`if`**\n\n*Keyword*\n\nConditional statement.\n\n**Syntax:**\n```bolt\nif condition {\n    // code\n} else if other_condition {\n    // code\n} else {\n    // code\n}\n```"@)
    } else if word == "Integer"@ {
        Some("**`Integer`**\n\n*Built-in Type*\n\nA 64-bit signed integer type.\n\n**Usage:**\n```bolt\nval count: Integer = 42\nval numbers: Array[Integer] = ...\n```"@)
    } else if word == "String"@ {
        Some("**`String`**\n\n*Built-in Type*\n\nA string type for text data.\n\n**Usage:**\n```bolt\nval message: String = \"Hello\"\nval names: Array[String] = ...\n```"@)
    } else if word == "Bool"@ {
        Some("**`Bool`**\n\n*Built-in Type*\n\nA boolean type with values true and false.\n\n**Usage:**\n```bolt\nval isReady: Bool = true\nval flags: Array[Bool] = ...\n```"@)
    } else if word == "readFile"@ {
        Some("**`readFile(path: String): String`**\n\n*File I/O Function*\n\nReads the contents of a file.\n\n**Usage:**\n```bolt\nimport { readFile } from \"bolt:io\"\n\nval content := readFile(\"example.txt\")\nprint(content)\n```"@)
    } else if word == "writeFile"@ {
        Some("**`writeFile(path: String, content: String): Bool`**\n\n*File I/O Function*\n\nWrites content to a file, returns success status.\n\n**Usage:**\n```bolt\nimport { writeFile } from \"bolt:io\"\n\nval success := writeFile(\"output.txt\", \"Hello, World!\")\nif (success) {\n    print(\"File written successfully\")\n}\n```"@)
    } else if word == "appendFile"@ {
        Some("**`appendFile(path: String, content: String): Bool`**\n\n*File I/O Function*\n\nAppends content to an existing file.\n\n**Usage:**\n```bolt\nimport { appendFile } from \"bolt:io\"\n\nval success := appendFile(\"log.txt\", \"New log entry\")\n```"@)
    } else if word == "deleteFile"@ {
        Some("**`deleteFile(path: String): Bool`**\n\n*File I/O Function*\n\nDeletes a file, returns success status.\n\n**Usage:**\n```bolt\nimport { deleteFile } from \"bolt:io\"\n\nval success := deleteFile(\"temp.txt\")\n```"@)
    } else if word == "fileExists"@ {
        Some("**`fileExists(path: String): Bool`**\n\n*File I/O Function*\n\nChecks if a file exists.\n\n**Usage:**\n```bolt\nimport { fileExists } from \"bolt:io\"\n\nif (fileExists(\"config.txt\")) {\n    // file exists, proceed\n}\n```"@)
    } else if word == "length"@ {
        Some("**`length(s: String): Integer`**\n\n*String Utility Function*\n\nReturns the length of a string.\n\n**Usage:**\n```bolt\nimport { length } from \"bolt:string\"\n\nval text := \"Hello, World!\"\nval len := length(text)  // returns 13\n```"@)
    } else if word == "concat"@ {
        Some("**`concat(a: String, b: String): String`**\n\n*String Utility Function*\n\nConcatenates two strings.\n\n**Usage:**\n```bolt\nimport { concat } from \"bolt:string\"\n\nval greeting := concat(\"Hello, \", \"World!\")\nprint(greeting)  // prints \"Hello, World!\"\n```"@)
    } else if word == "indexOf"@ {
        Some("**`indexOf(s: String, substr: String): Integer`**\n\n*String Utility Function*\n\nFinds the index of a substring, returns -1 if not found.\n\n**Usage:**\n```bolt\nimport { indexOf } from \"bolt:string\"\n\nval text := \"Hello, World!\"\nval index := indexOf(text, \"World\")  // returns 7\n```"@)
    } else if word == "contains"@ {
        Some("**`contains(s: String, substr: String): Bool`**\n\n*String Utility Function*\n\nChecks if a string contains a substring.\n\n**Usage:**\n```bolt\nimport { contains } from \"bolt:string\"\n\nval text := \"Hello, World!\"\nval hasWorld := contains(text, \"World\")  // returns true\n```"@)
    } else if word == "trim"@ {
        Some("**`trim(s: String): String`**\n\n*String Utility Function*\n\nRemoves leading and trailing whitespace.\n\n**Usage:**\n```bolt\nimport { trim } from \"bolt:string\"\n\nval text := \"  hello world  \"\nval trimmed := trim(text)  // returns \"hello world\"\n```"@)
    } else if word == "true"@ {
        Some("**`true`**\n\n*Boolean literal*\n\nA boolean value representing a true condition."@)
    } else if word == "false"@ {
        Some("**`false`**\n\n*Boolean literal*\n\nA boolean value representing a false condition."@)
    } else {
        None
    }
}

/// The fixed hover text of a word (see [`keyword_hover`]).
pub(crate) fn keyword_hover_text(word: &String) -> (res: Option<String>)
    ensures
        match keyword_hover(word@) {
            Some(t) => res matches Some(r) && r@ == t,
            None => res is None,
        },
{
    if string_is(word, "print") {
        return Some(owned("**`print(value)`**\n\n*Built-in function*\n\nPrints a value to the console.\n\n**Examples:**\n```bolt\nprint(\"Hello, World!\")\nprint(42)\nprint(true)\n```"));
    }
    if string_is(word, "val") {
        return Some(owned("**`val`**\n\n*Keyword*\n\nDeclares an immutable variable (constant).\n\n**Syntax:**\n```bolt\nval name := value\nval name: Type = value\n```\n\n**Examples:**\n```bolt\nval message := \"Hello\"\nval count: Integer = 42\nval arr: Array[Integer] = Array[Integer] { ... }\n```"));
    }
    if string_is(word, "var") {
        return Some(owned("**`var`**\n\n*Keyword*\n\nDeclares a mutable variable.\n\n**Syntax:**\n```bolt\nvar name := value\nvar name: Type = value\n```\n\n**Examples:**\n```bolt\nvar counter := 0\nvar status: String = \"ready\"\n```"));
    }
    if string_is(word, "type") {
        return Some(owned("**`type`**\n\n*Keyword*\n\nDeclares a custom type or generic type.\n\n**Syntax:**\n```bolt\ntype TypeName = { field: Type }\ntype Generic[T] = { data: T }\n```\n\n**Examples:**\n```bolt\ntype Person = { name: String, age: Integer }\ntype Array[T] = { data: ^T, length: Integer }\ntype Result[T] = { value: T, isError: Bool }\n```"));
    }
    if string_is(word, "fun") {
        return Some(owned("**`fun`**\n\n*Keyword*\n\nDeclares a function.\n\n**Syntax:**\n```bolt\nfun name(param: Type): ReturnType {\n    // function body\n    return value\n}\n```\n\n**Example:**\n```bolt\nfun greet(name: String): String {\n    return \"Hello, \" + name\n}\n```"));
    }
    if string_is(word, "native") {
        return Some(owned("**`native`**\n\n*Keyword*\n\nDeclares a native code block for inline C functions.\n\n**Syntax:**\n```bolt\nnative \"C\" {\n    export fun functionName(param: Type): ReturnType\n}\n```\n\n**Example:**\n```bolt\nnative \"C\" {\n    export fun add(a: Integer, b: Integer): Integer\n}\n```"));
    }
    if string_is(word, "export") {
        return Some(owned("**`export`**\n\n*Keyword*\n\nMarks a function as exported from a module.\n\n**Usage:**\n```bolt\nnative \"C\" {\n    export fun readFile(path: String): String\n}\n```"));
    }
    if string_is(word, "import") {
        return Some(owned("**`import`**\n\n*Keyword*\n\nImports functions from modules.\n\n**Syntax:**\n```bolt\nimport { functionName } from \"module\"\n```\n\n**Examples:**\n```bolt\nimport { print } from \"bolt:stdio\"\nimport { readFile, writeFile } from \"bolt:io\"\nimport { length, concat } from \"bolt:string\"\n```"));
    }
    if string_is(word, "for") {
        return Some(owned("**`for`**\n\n*Keyword*\n\nLoop construct with multiple forms.\n\n**For-in loop:**\n```bolt\nfor item in array {\n    print(item)\n}\n```\n\n**Condition loop:**\n```bolt\nfor (condition) {\n    // code\n}\n```\n\n**Works with Array[T] types:**\n```bolt\nfor item in myGenericArray {\n    // item is correctly typed\n}\n```"));
    }
    if string_is(word, "Array") {
        return Some(owned("**`Array[T]`**\n\n*Generic Type*\n\nA generic array type that can hold elements of any type T.\n\n**Definition:**\n```bolt\ntype Array[T] = {\n    data: ^T,\n    length: Integer,\n    capacity: Integer\n}\n```\n\n**Usage:**\n```bolt\nval numbers: Array[Integer] = Array[Integer] { \n    data: &value, length: 1, capacity: 10 \n}\n\nfor item in numbers {\n    print(item)  // item is Integer\n}\n```"));
    }
    if string_is(word, "if") {
        return Some(owned("**`if`**\n\n*Keyword*\n\nConditional statement.\n\n**Syntax:**\n```bolt\nif condition {\n    // code\n} else if other_condition {\n    // code\n} else {\n    // code\n}\n```"));
    }
    if string_is(word, "Integer") {
        return Some(owned("**`Integer`**\n\n*Built-in Type*\n\nA 64-bit signed integer type.\n\n**Usage:**\n```bolt\nval count: Integer = 42\nval numbers: Array[Integer] = ...\n```"));
    }
    if string_is(word, "String") {
        return Some(owned("**`String`**\n\n*Built-in Type*\n\nA string type for text data.\n\n**Usage:**\n```bolt\nval message: String = \"Hello\"\nval names: Array[String] = ...\n```"));
    }
    if string_is(word, "Bool") {
        return Some(owned("**`Bool`**\n\n*Built-in Type*\n\nA boolean type with values true and false.\n\n**Usage:**\n```bolt\nval isReady: Bool = true\nval flags: Array[Bool] = ...\n```"));
    }
    if string_is(word, "readFile") {
        return Some(owned("**`readFile(path: String): String`**\n\n*File I/O Function*\n\nReads the contents of a file.\n\n**Usage:**\n```bolt\nimport { readFile } from \"bolt:io\"\n\nval content := readFile(\"example.txt\")\nprint(content)\n```"));
    }
    if string_is(word, "writeFile") {
        return Some(owned("**`writeFile(path: String, content: String): Bool`**\n\n*File I/O Function*\n\nWrites content to a file, returns success status.\n\n**Usage:**\n```bolt\nimport { writeFile } from \"bolt:io\"\n\nval success := writeFile(\"output.txt\", \"Hello, World!\")\nif (success) {\n    print(\"File written successfully\")\n}\n```"));
    }
    if string_is(word, "appendFile") {
        return Some(owned("**`appendFile(path: String, content: String): Bool`**\n\n*File I/O Function*\n\nAppends content to an existing file.\n\n**Usage:**\n```bolt\nimport { appendFile } from \"bolt:io\"\n\nval success := appendFile(\"log.txt\", \"New log entry\")\n```"));
    }
    if string_is(word, "deleteFile") {
        return Some(owned("**`deleteFile(path: String): Bool`**\n\n*File I/O Function*\n\nDeletes a file, returns success status.\n\n**Usage:**\n```bolt\nimport { deleteFile } from \"bolt:io\"\n\nval success := deleteFile(\"temp.txt\")\n```"));
    }
    if string_is(word, "fileExists") {
        return Some(owned("**`fileExists(path: String): Bool`**\n\n*File I/O Function*\n\nChecks if a file exists.\n\n**Usage:**\n```bolt\nimport { fileExists } from \"bolt:io\"\n\nif (fileExists(\"config.txt\")) {\n    // file exists, proceed\n}\n```"));
    }
    if string_is(word, "length") {
        return Some(owned("**`length(s: String): Integer`**\n\n*String Utility Function*\n\nReturns the length of a string.\n\n**Usage:**\n```bolt\nimport { length } from \"bolt:string\"\n\nval text := \"Hello, World!\"\nval len := length(text)  // returns 13\n```"));
    }
    if string_is(word, "concat") {
        return Some(owned("**`concat(a: String, b: String): String`**\n\n*String Utility Function*\n\nConcatenates two strings.\n\n**Usage:**\n```bolt\nimport { concat } from \"bolt:string\"\n\nval greeting := concat(\"Hello, \", \"World!\")\nprint(greeting)  // prints \"Hello, World!\"\n```"));
    }
    if string_is(word, "indexOf") {
        return Some(owned("**`indexOf(s: String, substr: String): Integer`**\n\n*String Utility Function*\n\nFinds the index of a substring, returns -1 if not found.\n\n**Usage:**\n```bolt\nimport { indexOf } from \"bolt:string\"\n\nval text := \"Hello, World!\"\nval index := indexOf(text, \"World\")  // returns 7\n```"));
    }
    if string_is(word, "contains") {
        return Some(owned("**`contains(s: String, substr: String): Bool`**\n\n*String Utility Function*\n\nChecks if a string contains a substring.\n\n**Usage:**\n```bolt\nimport { contains } from \"bolt:string\"\n\nval text := \"Hello, World!\"\nval hasWorld := contains(text, \"World\")  // returns true\n```"));
    }
    if string_is(word, "trim") {
        return Some(owned("**`trim(s: String): String`**\n\n*String Utility Function*\n\nRemoves leading and trailing whitespace.\n\n**Usage:**\n```bolt\nimport { trim } from \"bolt:string\"\n\nval text := \"  hello world  \"\nval trimmed := trim(text)  // returns \"hello world\"\n```"));
    }
    if string_is(word, "true") {
        return Some(owned("**`true`**\n\n*Boolean literal*\n\nA boolean value representing a true condition."));
    }
    if string_is(word, "false") {
        return Some(owned("**`false`**\n\n*Boolean literal*\n\nA boolean value representing a false condition."));
    }
    None
}

} // verus!
