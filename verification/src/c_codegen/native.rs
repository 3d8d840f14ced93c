//! The C code for `native` and `extern` function declarations.
use vstd::prelude::*;
use crate::ast::{native_model, params_model, ExternFunction, NativeFunction, Parameter, SpecSignature, SpecType, Type};
use crate::text::{join_strings, owned, seq_join, string_is, strings_model};
use super::CCodeGen;

verus! {

/// The C implementation the generator provides for a known native
/// function, by name.
pub open spec fn known_native(name: Seq<char>) -> Option<Seq<char>> {
    if name == "readFile"@ {
        Some(
            "char* readFile(const char* path) {\n"@
                + "    FILE* file = fopen(path, \"r\");\n"@
                + "    if (!file) return \"\";\n"@
                + "    fseek(file, 0, SEEK_END);\n"@
                + "    long length = ftell(file);\n"@
                + "    fseek(file, 0, SEEK_SET);\n"@
                + "    char* content = malloc(length + 1);\n"@
                + "    fread(content, 1, length, file);\n"@
                + "    content[length] = '\\0';\n"@
                + "    fclose(file);\n"@
                + "    return content;\n"@
                + "}\n\n"@
        )
    } else if name == "writeFile"@ {
        Some(
            "int writeFile(const char* path, const char* content) {\n"@
                + "    FILE* file = fopen(path, \"w\");\n"@
                + "    if (!file) return 0;\n"@
                + "    fputs(content, file);\n"@
                + "    fclose(file);\n"@
                + "    return 1;\n"@
                + "}\n\n"@
        )
    } else if name == "appendFile"@ {
        Some(
            "int appendFile(const char* path, const char* content) {\n"@
                + "    FILE* file = fopen(path, \"a\");\n"@
                + "    if (!file) return 0;\n"@
                + "    fputs(content, file);\n"@
                + "    fclose(file);\n"@
                + "    return 1;\n"@
                + "}\n\n"@
        )
    } else if name == "fileExists"@ {
        Some(
            "int fileExists(const char* path) {\n"@
                + "    FILE* file = fopen(path, \"r\");\n"@
                + "    if (file) {\n"@
                + "        fclose(file);\n"@
                + "        return 1;\n"@
                + "    }\n"@
                + "    return 0;\n"@
                + "}\n\n"@
        )
    } else if name == "deleteFile"@ {
        Some(
            "int deleteFile(const char* path) {\n"@
                + "    return remove(path) == 0 ? 1 : 0;\n"@
                + "}\n\n"@
        )
    } else if name == "length"@ {
        Some(
            "int length(const char* str) {\n"@
                + "    return strlen(str);\n"@
                + "}\n\n"@
        )
    } else if name == "concat"@ {
        Some(
            "char* concat(const char* str1, const char* str2) {\n"@
                + "    return string_concat(str1, str2);\n"@
                + "}\n\n"@
        )
    } else if name == "indexOf"@ {
        Some(
            "int indexOf(const char* str, const char* substr) {\n"@
                + "    char* pos = strstr(str, substr);\n"@
                + "    return pos ? (int)(pos - str) : -1;\n"@
                + "}\n\n"@
        )
    } else if name == "contains"@ {
        Some(
            "int contains(const char* str, const char* substr) {\n"@
                + "    return strstr(str, substr) != NULL ? 1 : 0;\n"@
                + "}\n\n"@
        )
    } else if name == "trim"@ {
        Some(
            "char* trim(const char* str) {\n"@
                + "    const char* start = str;\n"@
                + "    const char* end = str + strlen(str) - 1;\n"@
                + "    while (*start && (*start == ' ' || *start == '\\t' || *start == '\\n' || *start == '\\r')) start++;\n"@
                + "    while (end > start && (*end == ' ' || *end == '\\t' || *end == '\\n' || *end == '\\r')) end--;\n"@
                + "    size_t len = end - start + 1;\n"@
                + "    char* result = malloc(len + 1);\n"@
                + "    strncpy(result, start, len);\n"@
                + "    result[len] = '\\0';\n"@
                + "    return result;\n"@
                + "}\n\n"@
        )
    } else {
        None
    }
}

/// The C spelling of a parameter type in a native or extern signature.
pub open spec fn param_c_type(t: SpecType) -> Seq<char> {
    match t {
        SpecType::String => "const char*"@,
        SpecType::Integer => "int"@,
        SpecType::Bool => "int"@,
        _ => "void*"@,
    }
}

/// `type name` texts of a signature's parameters.
pub open spec fn param_decls(params: Seq<(Seq<char>, SpecType)>) -> Seq<Seq<char>> {
    Seq::new(params.len(), |i: int| param_c_type(params[i].1) + " "@ + params[i].0)
}

/// A stub for an unknown native function: a default return value by its
/// return type.
pub open spec fn native_stub(f: SpecSignature) -> Seq<char> {
    let (ret, body) = match f.return_type {
        Some(SpecType::Integer) => ("int "@, "    return 0; // Stub implementation\n"@),
        Some(SpecType::String) => ("char* "@, "    return \"\"; // Stub implementation\n"@),
        Some(SpecType::Bool) => ("int "@, "    return 0; // Stub implementation\n"@),
        _ => ("void "@, "    // Stub implementation\n"@),
    };
    ret + f.name + "("@ + seq_join(param_decls(f.params), ", "@) + ") {\n"@ + body + "}\n\n"@
}

/// The C code for one native function.
pub open spec fn native_text(f: SpecSignature) -> Seq<char> {
    match known_native(f.name) {
        Some(t) => t,
        None => native_stub(f),
    }
}

/// The C code for a list of native functions, in order.
pub open spec fn natives_text(fs: Seq<SpecSignature>) -> Seq<char>
    decreases fs.len(),
{
    if fs.len() == 0 {
        Seq::empty()
    } else {
        natives_text(fs.drop_last()) + native_text(fs.last())
    }
}

/// The return type of an extern declaration.
pub open spec fn extern_return(t: Option<SpecType>) -> Seq<char> {
    match t {
        Some(SpecType::String) => "char*"@,
        Some(t) => param_c_type(t),
        None => "void"@,
    }
}

/// One `extern` declaration.
pub open spec fn extern_text(f: SpecSignature) -> Seq<char> {
    "extern "@ + extern_return(f.return_type) + " "@ + f.name + "("@ + seq_join(param_decls(f.params), ", "@) + ");\n"@
}

/// The `extern` declarations of a list, in order.
pub open spec fn externs_text(fs: Seq<SpecSignature>) -> Seq<char>
    decreases fs.len(),
{
    if fs.len() == 0 {
        Seq::empty()
    } else {
        externs_text(fs.drop_last()) + extern_text(fs.last())
    }
}

/// `libs` with `lib` added at the end unless already there.
pub open spec fn add_library(libs: Seq<Seq<char>>, lib: Seq<char>) -> Seq<Seq<char>> {
    if libs.contains(lib) {
        libs
    } else {
        libs.push(lib)
    }
}

/// The libraries after the extern declarations `fs` ask for theirs.
pub open spec fn libraries_after(libs: Seq<Seq<char>>, fs: Seq<SpecSignature>) -> Seq<Seq<char>>
    decreases fs.len(),
{
    if fs.len() == 0 {
        libs
    } else {
        let before = libraries_after(libs, fs.drop_last());
        match fs.last().library {
            Some(l) => add_library(before, l),
            None => before,
        }
    }
}

/// The C code for a known native function, by name.
fn known_native_text(name: &String) -> (res: Option<String>)
    ensures
        match known_native(name@) {
            Some(t) => res matches Some(r) && r@ == t,
            None => res is None,
        },
{
    if string_is(name, "readFile") {
        let mut t = owned("char* readFile(const char* path) {\n");
        t.append("    FILE* file = fopen(path, \"r\");\n");
        t.append("    if (!file) return \"\";\n");
        t.append("    fseek(file, 0, SEEK_END);\n");
        t.append("    long length = ftell(file);\n");
        t.append("    fseek(file, 0, SEEK_SET);\n");
        t.append("    char* content = malloc(length + 1);\n");
        t.append("    fread(content, 1, length, file);\n");
        t.append("    content[length] = '\\0';\n");
        t.append("    fclose(file);\n");
        t.append("    return content;\n");
        t.append("}\n\n");
        Some(t)
    } else if string_is(name, "writeFile") {
        let mut t = owned("int writeFile(const char* path, const char* content) {\n");
        t.append("    FILE* file = fopen(path, \"w\");\n");
        t.append("    if (!file) return 0;\n");
        t.append("    fputs(content, file);\n");
        t.append("    fclose(file);\n");
        t.append("    return 1;\n");
        t.append("}\n\n");
        Some(t)
    } else if string_is(name, "appendFile") {
        let mut t = owned("int appendFile(const char* path, const char* content) {\n");
        t.append("    FILE* file = fopen(path, \"a\");\n");
        t.append("    if (!file) return 0;\n");
        t.append("    fputs(content, file);\n");
        t.append("    fclose(file);\n");
        t.append("    return 1;\n");
        t.append("}\n\n");
        Some(t)
    } else if string_is(name, "fileExists") {
        let mut t = owned("int fileExists(const char* path) {\n");
        t.append("    FILE* file = fopen(path, \"r\");\n");
        t.append("    if (file) {\n");
        t.append("        fclose(file);\n");
        t.append("        return 1;\n");
        t.append("    }\n");
        t.append("    return 0;\n");
        t.append("}\n\n");
        Some(t)
    } else if string_is(name, "deleteFile") {
        let mut t = owned("int deleteFile(const char* path) {\n");
        t.append("    return remove(path) == 0 ? 1 : 0;\n");
        t.append("}\n\n");
        Some(t)
    } else if string_is(name, "length") {
        let mut t = owned("int length(const char* str) {\n");
        t.append("    return strlen(str);\n");
        t.append("}\n\n");
        Some(t)
    } else if string_is(name, "concat") {
        let mut t = owned("char* concat(const char* str1, const char* str2) {\n");
        t.append("    return string_concat(str1, str2);\n");
        t.append("}\n\n");
        Some(t)
    } else if string_is(name, "indexOf") {
        let mut t = owned("int indexOf(const char* str, const char* substr) {\n");
        t.append("    char* pos = strstr(str, substr);\n");
        t.append("    return pos ? (int)(pos - str) : -1;\n");
        t.append("}\n\n");
        Some(t)
    } else if string_is(name, "contains") {
        let mut t = owned("int contains(const char* str, const char* substr) {\n");
        t.append("    return strstr(str, substr) != NULL ? 1 : 0;\n");
        t.append("}\n\n");
        Some(t)
    } else if string_is(name, "trim") {
        let mut t = owned("char* trim(const char* str) {\n");
        t.append("    const char* start = str;\n");
        t.append("    const char* end = str + strlen(str) - 1;\n");
        t.append("    while (*start && (*start == ' ' || *start == '\\t' || *start == '\\n' || *start == '\\r')) start++;\n");
        t.append("    while (end > start && (*end == ' ' || *end == '\\t' || *end == '\\n' || *end == '\\r')) end--;\n");
        t.append("    size_t len = end - start + 1;\n");
        t.append("    char* result = malloc(len + 1);\n");
        t.append("    strncpy(result, start, len);\n");
        t.append("    result[len] = '\\0';\n");
        t.append("    return result;\n");
        t.append("}\n\n");
        Some(t)
    } else {
        None
    }
}

/// The C spelling of a parameter type in a native or extern signature.
fn param_type_text(t: &Type) -> (res: &'static str)
    ensures
        res@ == param_c_type(t@),
{
    match t {
        Type::String => "const char*",
        Type::Integer => "int",
        Type::Bool => "int",
        _ => "void*",
    }
}

/// `type name` texts of parameters, joined with `, `.
fn param_list_text(params: &Vec<Parameter>) -> (res: String)
    ensures
        res@ == seq_join(param_decls(params_model(params@)), ", "@),
{
    let mut parts: Vec<String> = Vec::new();
    let mut i: usize = 0;
    while i < params.len()
        invariant
            i <= params@.len(),
            parts@.len() == i,
            forall|j: int|
                0 <= j < i ==> (#[trigger] parts@[j])@ == param_c_type(params@[j].param_type@) + " "@ + params@[j].name@,
        decreases params@.len() - i,
    {
        let mut t = owned(param_type_text(&params[i].param_type));
        t.append(" ");
        t.append(params[i].name.as_str());
        parts.push(t);
        i = i + 1;
    }
    assert(strings_model(parts@) =~= param_decls(params_model(params@)));
    join_strings(&parts, ", ")
}

impl CCodeGen {
    /// The C spelling of a parameter type in a native or extern signature.
    pub fn param_to_c_type(&self, bolt_type: &Type) -> (res: &'static str)
        ensures
            res@ == param_c_type(bolt_type@),
    {
        param_type_text(bolt_type)
    }

    /// Appends the C code for one native function to `result`: the
    /// generator's own implementation for a known name, a stub otherwise.
    pub fn compile_single_native_c_function(&self, function: &NativeFunction, result: &mut String)
        ensures
            final(result)@ == old(result)@ + native_text(native_model(*function)),
    {
        match known_native_text(&function.name) {
            Some(t) => {
                result.append(t.as_str());
            },
            None => {
                let (ret, body) = match &function.return_type {
                    Some(Type::Integer) => ("int ", "    return 0; // Stub implementation\n"),
                    Some(Type::String) => ("char* ", "    return \"\"; // Stub implementation\n"),
                    Some(Type::Bool) => ("int ", "    return 0; // Stub implementation\n"),
                    _ => ("void ", "    // Stub implementation\n"),
                };
                let mut t = owned(ret);
                t.append(function.name.as_str());
                t.append("(");
                t.append(param_list_text(&function.params).as_str());
                t.append(") {\n");
                t.append(body);
                t.append("}\n\n");
                result.append(t.as_str());
            },
        }
    }

    /// Appends the C code for each native function, in order.
    pub fn compile_native_c_functions(&self, functions: &[NativeFunction], result: &mut String)
        ensures
            final(result)@ == old(result)@ + natives_text(Seq::new(functions@.len(), |i: int| native_model(functions@[i]))),
    {
        let ghost sigs = Seq::new(functions@.len(), |i: int| native_model(functions@[i]));
        let mut i: usize = 0;
        assert(sigs.subrange(0, 0) =~= Seq::<SpecSignature>::empty());
        while i < functions.len()
            invariant
                i <= functions@.len(),
                sigs == Seq::new(functions@.len(), |i: int| native_model(functions@[i])),
                result@ == old(result)@ + natives_text(sigs.subrange(0, i as int)),
            decreases functions@.len() - i,
        {
            self.compile_single_native_c_function(&functions[i], result);
            proof {
                assert(sigs.subrange(0, i + 1).drop_last() =~= sigs.subrange(0, i as int));
                vstd::seq_lib::lemma_concat_associative(
                    old(result)@,
                    natives_text(sigs.subrange(0, i as int)),
                    native_text(sigs[i as int]),
                );
            }
            i = i + 1;
        }
        assert(sigs.subrange(0, functions@.len() as int) =~= sigs);
    }

    /// Appends an `extern` declaration for each function, then a blank
    /// line, and records the libraries they name.
    pub fn compile_extern_c_functions(&mut self, functions: &[ExternFunction], result: &mut String)
        ensures
            final(result)@ == old(result)@ + externs_text(Seq::new(functions@.len(), |i: int| crate::ast::extern_model(functions@[i])))
                + "\n"@,
            final(self).libraries() == libraries_after(
                old(self).libraries(),
                Seq::new(functions@.len(), |i: int| crate::ast::extern_model(functions@[i])),
            ),
            final(self).gen() == old(self).gen(),
            final(self).functions == old(self).functions,
            final(self).symbol_table == old(self).symbol_table,
            final(self).has_user_main == old(self).has_user_main,
            final(self).generic_types == old(self).generic_types,
            final(self).required_monomorphs == old(self).required_monomorphs,
            final(self).generated_monomorphs == old(self).generated_monomorphs,
    {
        let ghost sigs = Seq::new(functions@.len(), |i: int| crate::ast::extern_model(functions@[i]));
        let mut i: usize = 0;
        assert(sigs.subrange(0, 0) =~= Seq::<SpecSignature>::empty());
        while i < functions.len()
            invariant
                i <= functions@.len(),
                sigs == Seq::new(functions@.len(), |i: int| crate::ast::extern_model(functions@[i])),
                result@ == old(result)@ + externs_text(sigs.subrange(0, i as int)),
                self.libraries() == libraries_after(old(self).libraries(), sigs.subrange(0, i as int)),
                self.gen() == old(self).gen(),
                self.functions == old(self).functions,
                self.symbol_table == old(self).symbol_table,
                self.has_user_main == old(self).has_user_main,
                self.generic_types == old(self).generic_types,
                self.required_monomorphs == old(self).required_monomorphs,
                self.generated_monomorphs == old(self).generated_monomorphs,
            decreases functions@.len() - i,
        {
            let function = &functions[i];
            proof {
                assert(sigs.subrange(0, i + 1).drop_last() =~= sigs.subrange(0, i as int));
            }
            match &function.library {
                Some(lib) => {
                    self.add_library(lib);
                },
                None => {},
            }
            let ret: &str = match &function.return_type {
                Some(Type::String) => "char*",
                Some(t) => param_type_text(t),
                None => "void",
            };
            let mut t = owned("extern ");
            t.append(ret);
            t.append(" ");
            t.append(function.name.as_str());
            t.append("(");
            t.append(param_list_text(&function.params).as_str());
            t.append(");\n");
            proof {
                vstd::seq_lib::lemma_concat_associative(
                    old(result)@,
                    externs_text(sigs.subrange(0, i as int)),
                    t@,
                );
            }
            result.append(t.as_str());
            i = i + 1;
        }
        assert(sigs.subrange(0, functions@.len() as int) =~= sigs);
        result.append("\n");
    }

    /// Records a library to link, once.
    fn add_library(&mut self, lib: &String)
        ensures
            final(self).libraries() == add_library(old(self).libraries(), lib@),
            final(self).gen() == old(self).gen(),
            final(self).functions == old(self).functions,
            final(self).symbol_table == old(self).symbol_table,
            final(self).has_user_main == old(self).has_user_main,
            final(self).generic_types == old(self).generic_types,
            final(self).required_monomorphs == old(self).required_monomorphs,
            final(self).generated_monomorphs == old(self).generated_monomorphs,
    {
        let mut i: usize = 0;
        while i < self.required_libraries.len()
            invariant
                i <= self.required_libraries@.len(),
                *self == *old(self),
                forall|j: int| 0 <= j < i ==> self.libraries()[j] != lib@,
            decreases self.required_libraries@.len() - i,
        {
            if self.required_libraries[i] == *lib {
                assert(self.libraries()[i as int] == lib@);
                return;
            }
            i = i + 1;
        }
        self.required_libraries.push(lib.clone());
        assert(self.libraries() =~= old(self).libraries().push(lib@));
    }
}

} // verus!
