use wasmchi::auto_host::{
    auto_host_module, infer_fn_ret_type, package_json, package_json_update,
    parse_npm_imports,
};

fn imports(src: &str) -> Vec<(String, Vec<String>)> {
    parse_npm_imports(src)
}

#[test]
fn npm_imports_are_found_per_line() {
    let src = "import { nanoid, foo } from \"npm:nanoid\"\nimport x from 'y'\n  import {a} from 'lodash'  \nexport fn main(): i32 {\n  return 0\n}\n";
    assert_eq!(
        imports(src),
        vec![
            ("nanoid".to_string(), vec!["nanoid".to_string(), "foo".to_string()]),
            ("lodash".to_string(), vec!["a".to_string()]),
        ]
    );
}

#[test]
fn npm_import_names_are_trimmed_and_empty_ones_dropped() {
    assert_eq!(
        imports("import {  a ,, b  , } from \"npm:pkg\""),
        vec![("pkg".to_string(), vec!["a".to_string(), "b".to_string()])]
    );
}

#[test]
fn npm_import_lines_that_do_not_fit_are_skipped() {
    assert!(imports("import { } from \"npm:x\"").is_empty());
    assert!(imports("import { a } \"npm:x\"").is_empty());
    assert!(imports("import { a } from npm:x").is_empty());
    assert!(imports("import { a } from \"npm:x").is_empty());
    assert!(imports("export { a } from \"npm:x\"").is_empty());
    assert!(imports("import from { a }").is_empty());
}

#[test]
fn npm_import_names_may_contain_from() {
    assert_eq!(
        imports("import { fromage } from \"npm:cheese\""),
        vec![("cheese".to_string(), vec!["fromage".to_string()])]
    );
}

#[test]
fn npm_prefix_is_optional() {
    assert_eq!(imports("import { a } from 'plain'"), vec![("plain".to_string(), vec!["a".to_string()])]);
}

#[test]
fn import_line_with_closing_brace_first_is_skipped() {
    assert_eq!(imports("import } { from 'x'"), vec![]);
    assert_eq!(imports("import from } { from 'x'"), vec![]);
    assert_eq!(
        imports("import } a { from \"x\"\nimport { b } from \"npm:y\""),
        vec![("y".to_string(), vec!["b".to_string()])]
    );
}

#[test]
fn return_type_string() {
    assert_eq!(infer_fn_ret_type("export function nanoid(size?: number): string;", "nanoid"), Some("string"));
}

#[test]
fn return_type_number_is_f64() {
    assert_eq!(infer_fn_ret_type("export function count(): number;\n", "count"), Some("f64"));
}

#[test]
fn return_type_of_exactly_the_named_function() {
    let dts = "export function nanoidAsync(): number;\nexport function nanoid(): string;";
    assert_eq!(infer_fn_ret_type(dts, "nanoid"), Some("string"));
    assert_eq!(infer_fn_ret_type(dts, "nanoidAsync"), Some("f64"));
    assert_eq!(infer_fn_ret_type("export function nanoid$x(): void;", "nanoid"), None);
    assert_eq!(infer_fn_ret_type("export function nanoid <T>(): void;", "nanoid"), Some("void"));
}

#[test]
fn return_type_void() {
    assert_eq!(infer_fn_ret_type("export function log(msg: string) :  void;", "log"), Some("void"));
}

#[test]
fn return_type_generic_string() {
    let dts = "export function nanoid<Type extends string>(size?: number): Type;";
    assert_eq!(infer_fn_ret_type(dts, "nanoid"), Some("string"));
    let dts2 = "export function nanoid<Type extends string>(size?: number): _Type;";
    assert_eq!(infer_fn_ret_type(dts2, "nanoid"), None);
}

#[test]
fn return_type_unknown_or_missing() {
    assert_eq!(infer_fn_ret_type("export function f(): boolean;", "f"), None);
    assert_eq!(infer_fn_ret_type("export function f();", "f"), None);
    assert_eq!(infer_fn_ret_type("export function g(): string;", "f"), None);
}

#[test]
fn return_type_word_runs_over_unicode_letters() {
    assert_eq!(infer_fn_ret_type("export function f(): stringé;", "f"), None);
    assert_eq!(infer_fn_ret_type("export function f(): string_x;", "f"), None);
    assert_eq!(infer_fn_ret_type("export function f(): string-x;", "f"), Some("string"));
}

fn deps(list: &[(&str, &str)]) -> Vec<(String, String)> {
    list.iter().map(|(k, v)| (k.to_string(), v.to_string())).collect()
}

#[test]
fn package_json_lists_dependencies() {
    assert_eq!(
        package_json(&deps(&[("nanoid", "latest"), ("ulid", "^2")])),
        "{\n  \"name\": \"wasmchi-project\",\n  \"private\": true,\n  \"type\": \"module\",\n  \"dependencies\": {\n    \"nanoid\": \"latest\",\n    \"ulid\": \"^2\"\n  }\n}\n"
    );
}

#[test]
fn package_json_without_dependencies() {
    assert_eq!(
        package_json(&deps(&[])),
        "{\n  \"name\": \"wasmchi-project\",\n  \"private\": true,\n  \"type\": \"module\",\n  \"dependencies\": {\n  }\n}\n"
    );
}

#[test]
fn package_json_is_rewritten_only_when_it_differs() {
    let d = deps(&[("nanoid", "latest")]);
    let text = package_json(&d);
    assert_eq!(package_json_update(None, &d), Some(text.clone()));
    assert_eq!(package_json_update(Some("{}"), &d), Some(text.clone()));
    let padded = format!("  \n{}\n\n", text.trim());
    assert_eq!(package_json_update(Some(&padded), &d), None);
    assert_eq!(package_json_update(Some(&text), &d), None);
}

#[test]
fn host_module_imports_and_exports_every_name() {
    let imports = vec![
        ("nanoid".to_string(), vec!["nanoid".to_string(), "foo".to_string()]),
        ("ulid".to_string(), vec!["ulid".to_string()]),
    ];
    assert_eq!(
        auto_host_module(&imports),
        "import {nanoid, foo} from 'nanoid'\nimport {ulid} from 'ulid'\n\nexport default {\n  nanoid: nanoid,\n  foo: foo,\n  ulid: ulid,\n}\n"
    );
    assert_eq!(auto_host_module(&vec![]), "\nexport default {\n}\n");
}
