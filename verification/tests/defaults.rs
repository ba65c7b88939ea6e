use swc_ecma_compiler::compiler::CompatCompiler;
use swc_ecma_compiler::es2020::export_namespace_from::ExportNamespaceFrom;
use swc_ecma_compiler::module_imports::ModuleImportsStore;
use swc_ecma_compiler::statement_injector::StatementInjectorStore;
use swc_ecma_compiler::top_level_statements::TopLevelStatementsStore;
use swc_ecma_compiler::var_declarations::VarDeclarationsStore;

#[test]
fn defaults_are_fresh_stores() {
    assert_eq!(ExportNamespaceFrom::default().uid_counter, 0);
    assert!(ModuleImportsStore::default().is_empty());
    assert!(StatementInjectorStore::default().is_empty());
    assert!(TopLevelStatementsStore::default().is_empty());
    assert!(!VarDeclarationsStore::default().has_pending_declarations());
    let c = CompatCompiler::default();
    assert_eq!(c.ctx.source_path, "");
    assert!(c.ctx.errors.is_empty());
}
