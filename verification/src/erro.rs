//! Taxonomia de erros das operações de backup, restauração e pacotes.

use vstd::prelude::*;

verus! {

/// Erro de uma operação sobre um arquivo `.vaultbackup`.
///
/// Cada variante corresponde a uma causa distinta, e toda falha de validação
/// acontece antes de qualquer valor de restauração ser entregue ao chamador:
/// - `Es`: falha de disco ou do contêiner ao gravar (repassada ao chamador);
/// - `Formato`: o arquivo não é um contêiner válido, ou uma entrada
///   obrigatória está ausente ou não pôde ser decodificada;
/// - `VersaoIncompativel`: o manifesto declara um esquema mais novo que o
///   suportado pelo sistema em execução; carrega as duas versões;
/// - `Integridade`: o resumo da entrada principal de dados não confere com o
///   registrado no manifesto;
/// - `NaoEncontrado`: a entidade referida (por exemplo, a pasta a exportar)
///   não existe.
#[derive(Clone, PartialEq, Eq, Debug)]
pub enum ErroBackup {
    Es,
    Formato,
    VersaoIncompativel { encontrada: i32, suportada: i32 },
    Integridade,
    NaoEncontrado,
}

} // verus!
