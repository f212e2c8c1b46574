//! Modelos de dados do cofre: pastas, itens, etiquetas, anexos, tarefas,
//! auditoria, configurações e o manifesto de backup, com suas vistas
//! matemáticas usadas nos contratos.

use vstd::prelude::*;

use crate::texto::textos_iguais;

verus! {

// =============================================================================
// TipoItem
// =============================================================================

/// Os três tipos de item do cofre: nota (texto livre), documento (metadados e
/// anexos) e checklist (lista de tarefas).
#[derive(Debug, Clone, Copy, PartialEq, Eq, Structural)]
pub enum TipoItem {
    Nota,
    Documento,
    Checklist,
}

/// O nome canônico de cada tipo de item, como gravado no banco e nos pacotes.
pub open spec fn texto_do_tipo(t: TipoItem) -> Seq<char> {
    match t {
        TipoItem::Nota => "nota"@,
        TipoItem::Documento => "documento"@,
        TipoItem::Checklist => "checklist"@,
    }
}

/// O tipo de item denotado por um texto; qualquer valor desconhecido vale
/// `Nota`, o padrão histórico do cofre.
pub open spec fn tipo_de_texto(s: Seq<char>) -> TipoItem {
    if s == "documento"@ {
        TipoItem::Documento
    } else if s == "checklist"@ {
        TipoItem::Checklist
    } else {
        TipoItem::Nota
    }
}

/// Os nomes canônicos dos três tipos são distintos entre si.
pub proof fn lema_nomes_de_tipo_distintos()
    ensures
        "nota"@ != "documento"@,
        "nota"@ != "checklist"@,
        "documento"@ != "checklist"@,
{
    reveal_strlit("nota");
    reveal_strlit("documento");
    reveal_strlit("checklist");
    assert("nota"@.len() == 4);
    assert("documento"@.len() == 9);
    assert("checklist"@.len() == 9);
    assert("documento"@[0] == 'd');
    assert("checklist"@[0] == 'c');
}

/// Converter um tipo em texto e de volta devolve o mesmo tipo.
pub proof fn lema_tipo_ida_e_volta(t: TipoItem)
    ensures
        tipo_de_texto(texto_do_tipo(t)) == t,
{
    lema_nomes_de_tipo_distintos();
}

impl TipoItem {
    /// Converte um texto vindo do banco de dados no tipo correspondente;
    /// valores desconhecidos valem `Nota`.
    pub fn de_str(valor: &str) -> (t: TipoItem)
        ensures
            t == tipo_de_texto(valor@),
    {
        if textos_iguais(valor, "documento") {
            TipoItem::Documento
        } else if textos_iguais(valor, "checklist") {
            TipoItem::Checklist
        } else {
            TipoItem::Nota
        }
    }

    /// O nome canônico deste tipo.
    pub fn como_texto(&self) -> (r: String)
        ensures
            r@ == texto_do_tipo(*self),
    {
        match self {
            TipoItem::Nota => "nota".to_owned(),
            TipoItem::Documento => "documento".to_owned(),
            TipoItem::Checklist => "checklist".to_owned(),
        }
    }
}

// =============================================================================
// Vistas auxiliares
// =============================================================================

/// A vista de um texto opcional.
pub open spec fn vista_opcao(o: Option<String>) -> Option<Seq<char>> {
    match o {
        Some(s) => Some(s@),
        None => None,
    }
}

// =============================================================================
// Pasta
// =============================================================================

/// Uma pasta do cofre; a hierarquia é dada por `pasta_pai_id` (`None` para a
/// raiz) e `caminho` guarda o caminho completo na árvore.
#[derive(Debug, Clone, PartialEq)]
pub struct Pasta {
    pub id: String,
    pub pasta_pai_id: Option<String>,
    pub nome: String,
    pub caminho: String,
    pub criado_em: String,
    pub atualizado_em: String,
}

pub ghost struct PastaVista {
    pub id: Seq<char>,
    pub pasta_pai_id: Option<Seq<char>>,
    pub nome: Seq<char>,
    pub caminho: Seq<char>,
    pub criado_em: Seq<char>,
    pub atualizado_em: Seq<char>,
}

impl View for Pasta {
    type V = PastaVista;

    open spec fn view(&self) -> PastaVista {
        PastaVista {
            id: self.id@,
            pasta_pai_id: vista_opcao(self.pasta_pai_id),
            nome: self.nome@,
            caminho: self.caminho@,
            criado_em: self.criado_em@,
            atualizado_em: self.atualizado_em@,
        }
    }
}

// =============================================================================
// Tag
// =============================================================================

/// Uma etiqueta colorida para categorizar itens; `cor` é hexadecimal
/// (`#RRGGBB`).
#[derive(Debug, Clone, PartialEq)]
pub struct Tag {
    pub id: String,
    pub nome: String,
    pub cor: String,
    pub criado_em: String,
}

pub ghost struct TagVista {
    pub id: Seq<char>,
    pub nome: Seq<char>,
    pub cor: Seq<char>,
    pub criado_em: Seq<char>,
}

impl View for Tag {
    type V = TagVista;

    open spec fn view(&self) -> TagVista {
        TagVista { id: self.id@, nome: self.nome@, cor: self.cor@, criado_em: self.criado_em@ }
    }
}

// =============================================================================
// Anexo
// =============================================================================

/// Um arquivo anexado a um item ou a uma tarefa (exatamente um dos dois).
/// `caminho_interno` é o caminho relativo ao diretório de armazenamento e o
/// sufixo da entrada correspondente no arquivo de backup; `hash_sha256` é o
/// resumo do conteúdo para verificação de integridade.
#[derive(Debug, Clone, PartialEq)]
pub struct Anexo {
    pub id: String,
    pub item_id: Option<String>,
    pub tarefa_id: Option<String>,
    pub nome_original: String,
    pub caminho_interno: String,
    pub tamanho: i64,
    pub tipo_mime: String,
    pub hash_sha256: Option<String>,
    pub criado_em: String,
}

pub ghost struct AnexoVista {
    pub id: Seq<char>,
    pub item_id: Option<Seq<char>>,
    pub tarefa_id: Option<Seq<char>>,
    pub nome_original: Seq<char>,
    pub caminho_interno: Seq<char>,
    pub tamanho: int,
    pub tipo_mime: Seq<char>,
    pub hash_sha256: Option<Seq<char>>,
    pub criado_em: Seq<char>,
}

impl View for Anexo {
    type V = AnexoVista;

    open spec fn view(&self) -> AnexoVista {
        AnexoVista {
            id: self.id@,
            item_id: vista_opcao(self.item_id),
            tarefa_id: vista_opcao(self.tarefa_id),
            nome_original: self.nome_original@,
            caminho_interno: self.caminho_interno@,
            tamanho: self.tamanho as int,
            tipo_mime: self.tipo_mime@,
            hash_sha256: vista_opcao(self.hash_sha256),
            criado_em: self.criado_em@,
        }
    }
}

// =============================================================================
// Item
// =============================================================================

/// A entidade central do cofre: uma nota, um documento ou uma checklist,
/// com etiquetas e anexos carregados junto.
#[derive(Debug, Clone, PartialEq)]
pub struct Item {
    pub id: String,
    pub pasta_id: String,
    pub tipo: TipoItem,
    pub titulo: String,
    pub descricao: Option<String>,
    pub conteudo_nota: Option<String>,
    pub data_vencimento: Option<String>,
    pub criado_em: String,
    pub atualizado_em: String,
    pub tags: Vec<Tag>,
    pub anexos: Vec<Anexo>,
}

pub ghost struct ItemVista {
    pub id: Seq<char>,
    pub pasta_id: Seq<char>,
    pub tipo: TipoItem,
    pub titulo: Seq<char>,
    pub descricao: Option<Seq<char>>,
    pub conteudo_nota: Option<Seq<char>>,
    pub data_vencimento: Option<Seq<char>>,
    pub criado_em: Seq<char>,
    pub atualizado_em: Seq<char>,
    pub tags: Seq<TagVista>,
    pub anexos: Seq<AnexoVista>,
}

impl View for Item {
    type V = ItemVista;

    open spec fn view(&self) -> ItemVista {
        ItemVista {
            id: self.id@,
            pasta_id: self.pasta_id@,
            tipo: self.tipo,
            titulo: self.titulo@,
            descricao: vista_opcao(self.descricao),
            conteudo_nota: vista_opcao(self.conteudo_nota),
            data_vencimento: vista_opcao(self.data_vencimento),
            criado_em: self.criado_em@,
            atualizado_em: self.atualizado_em@,
            tags: self.tags@.map_values(|t: Tag| t@),
            anexos: self.anexos@.map_values(|a: Anexo| a@),
        }
    }
}

// =============================================================================
// TarefaChecklist
// =============================================================================

/// Uma tarefa individual de uma checklist; `ordem` controla a posição na
/// lista e a tarefa pode ter anexos próprios.
#[derive(Debug, Clone, PartialEq)]
pub struct TarefaChecklist {
    pub id: String,
    pub item_id: String,
    pub titulo: String,
    pub concluida: bool,
    pub ordem: i32,
    pub criado_em: String,
    pub atualizado_em: String,
    pub anexos: Vec<Anexo>,
}

// =============================================================================
// LogAuditoria e Configuracao
// =============================================================================

/// Um registro do log de auditoria; nunca é apagado.
#[derive(Debug, Clone, PartialEq)]
pub struct LogAuditoria {
    pub id: String,
    pub tipo_evento: String,
    pub entidade_tipo: String,
    pub entidade_id: Option<String>,
    pub detalhes: Option<String>,
    pub criado_em: String,
}

/// Um par chave/valor de preferências do aplicativo.
#[derive(Debug, Clone, PartialEq)]
pub struct Configuracao {
    pub chave: String,
    pub valor: Option<String>,
    pub atualizado_em: String,
}

// =============================================================================
// ManifestoBackup
// =============================================================================

/// Os metadados gravados como `manifesto.json` dentro de todo arquivo
/// `.vaultbackup`: versões, contagens e os resumos que permitem validar a
/// integridade antes de restaurar. `hash_banco` fica vazio em pacotes de
/// pasta, que não carregam o banco completo. `hashes_anexos` associa o
/// caminho interno de cada anexo ao resumo SHA-256 de seu conteúdo; as
/// chaves são únicas.
#[derive(Debug, Clone, PartialEq)]
pub struct ManifestoBackup {
    pub versao_app: String,
    pub versao_schema: i32,
    pub data: String,
    pub total_itens: i64,
    pub total_anexos: i64,
    pub hash_banco: String,
    pub hashes_anexos: Vec<(String, String)>,
}

pub ghost struct ManifestoVista {
    pub versao_app: Seq<char>,
    pub versao_schema: int,
    pub data: Seq<char>,
    pub total_itens: int,
    pub total_anexos: int,
    pub hash_banco: Seq<char>,
    pub hashes_anexos: Seq<(Seq<char>, Seq<char>)>,
}

impl View for ManifestoBackup {
    type V = ManifestoVista;

    open spec fn view(&self) -> ManifestoVista {
        ManifestoVista {
            versao_app: self.versao_app@,
            versao_schema: self.versao_schema as int,
            data: self.data@,
            total_itens: self.total_itens as int,
            total_anexos: self.total_anexos as int,
            hash_banco: self.hash_banco@,
            hashes_anexos: vista_pares(self.hashes_anexos@),
        }
    }
}

/// Os campos numéricos de um manifesto cabem nos inteiros do registro
/// executável e não são negativos.
pub open spec fn manifesto_bem_formado(m: ManifestoVista) -> bool {
    &&& 0 <= m.versao_schema <= i32::MAX
    &&& 0 <= m.total_itens <= i64::MAX
    &&& 0 <= m.total_anexos <= i64::MAX
}

/// A vista de uma lista executável de pares de textos.
pub open spec fn vista_pares(s: Seq<(String, String)>) -> Seq<(Seq<char>, Seq<char>)> {
    s.map_values(|p: (String, String)| (p.0@, p.1@))
}

/// O mapa de caminho interno para resumo descrito por uma lista de pares.
pub open spec fn mapa_de_pares(pares: Seq<(Seq<char>, Seq<char>)>) -> Map<Seq<char>, Seq<char>>
    decreases pares.len(),
{
    if pares.len() == 0 {
        Map::empty()
    } else {
        mapa_de_pares(pares.drop_last()).insert(pares.last().0, pares.last().1)
    }
}

/// As chaves de uma lista de pares, sem repetição.
pub open spec fn chaves_unicas(pares: Seq<(Seq<char>, Seq<char>)>) -> bool {
    forall|i: int, j: int|
        0 <= i < j < pares.len() ==> (#[trigger] pares[i]).0 != (#[trigger] pares[j]).0
}

/// Uma chave está no mapa exatamente quando algum par a traz, e leva ao
/// valor desse par quando as chaves não se repetem.
pub proof fn lema_mapa_de_pares_dominio(pares: Seq<(Seq<char>, Seq<char>)>, chave: Seq<char>)
    ensures
        mapa_de_pares(pares).contains_key(chave) <==> exists|i: int|
            0 <= i < pares.len() && (#[trigger] pares[i]).0 == chave,
        (chaves_unicas(pares) && mapa_de_pares(pares).contains_key(chave)) ==> forall|i: int|
            0 <= i < pares.len() && (#[trigger] pares[i]).0 == chave ==> mapa_de_pares(
                pares,
            )[chave] == pares[i].1,
    decreases pares.len(),
{
    if pares.len() > 0 {
        let n = pares.len();
        lema_mapa_de_pares_dominio(pares.drop_last(), chave);
        assert(forall|i: int|
            0 <= i < n - 1 ==> #[trigger] pares.drop_last()[i] == pares[i]);
        if pares.last().0 == chave {
            assert((pares[n - 1]).0 == chave);
        } else {
            if mapa_de_pares(pares).contains_key(chave) {
                let i = choose|i: int|
                    0 <= i < pares.drop_last().len() && (#[trigger] pares.drop_last()[i]).0
                        == chave;
                assert(pares[i].0 == chave);
            }
            if exists|i: int| 0 <= i < n && (#[trigger] pares[i]).0 == chave {
                let i = choose|i: int| 0 <= i < n && (#[trigger] pares[i]).0 == chave;
                assert(i < n - 1);
                assert((pares.drop_last()[i]).0 == chave);
            }
        }
        if chaves_unicas(pares) && mapa_de_pares(pares).contains_key(chave) {
            assert(chaves_unicas(pares.drop_last()));
            assert forall|i: int|
                0 <= i < n && (#[trigger] pares[i]).0 == chave implies mapa_de_pares(
                pares,
            )[chave] == pares[i].1 by {
                if i < n - 1 {
                    assert((pares[i]).0 != (pares[n - 1]).0);
                    assert((pares.drop_last()[i]).0 == chave);
                    assert(mapa_de_pares(pares.drop_last()).contains_key(chave));
                    assert(mapa_de_pares(pares.drop_last())[chave] == pares[i].1);
                }
            }
        }
    }
}

// =============================================================================
// Registros de criação e atualização
// =============================================================================

/// Dados para criar uma nova pasta.
#[derive(Debug, Clone, PartialEq)]
pub struct NovaPasta {
    pub nome: String,
    pub pasta_pai_id: Option<String>,
}

pub ghost struct NovaPastaVista {
    pub nome: Seq<char>,
    pub pasta_pai_id: Option<Seq<char>>,
}

impl View for NovaPasta {
    type V = NovaPastaVista;

    open spec fn view(&self) -> NovaPastaVista {
        NovaPastaVista { nome: self.nome@, pasta_pai_id: vista_opcao(self.pasta_pai_id) }
    }
}

/// Dados para criar um novo item.
#[derive(Debug, Clone, PartialEq)]
pub struct NovoItem {
    pub pasta_id: String,
    pub tipo: TipoItem,
    pub titulo: String,
    pub descricao: Option<String>,
    pub conteudo_nota: Option<String>,
    pub data_vencimento: Option<String>,
    pub tag_ids: Option<Vec<String>>,
}

/// Dados para atualizar um item existente.
#[derive(Debug, Clone, PartialEq)]
pub struct AtualizacaoItem {
    pub titulo: Option<String>,
    pub descricao: Option<String>,
    pub conteudo_nota: Option<String>,
    pub data_vencimento: Option<String>,
    pub pasta_id: Option<String>,
    pub tag_ids: Option<Vec<String>>,
}

/// Dados para criar ou atualizar uma etiqueta.
#[derive(Debug, Clone, PartialEq)]
pub struct NovaTag {
    pub nome: String,
    pub cor: Option<String>,
}

/// Dados para criar uma tarefa de checklist.
#[derive(Debug, Clone, PartialEq)]
pub struct NovaTarefa {
    pub item_id: String,
    pub titulo: String,
    pub ordem: Option<i32>,
}

/// Dados para atualizar uma tarefa.
#[derive(Debug, Clone, PartialEq)]
pub struct AtualizacaoTarefa {
    pub titulo: Option<String>,
    pub concluida: Option<bool>,
    pub ordem: Option<i32>,
}

/// Filtros da busca de texto completo.
#[derive(Debug, Clone, PartialEq)]
pub struct FiltrosBusca {
    pub tipo: Option<TipoItem>,
    pub pasta_id: Option<String>,
    pub tag_ids: Option<Vec<String>>,
    pub data_inicio: Option<String>,
    pub data_fim: Option<String>,
}

/// Filtros da listagem de eventos de auditoria.
#[derive(Debug, Clone, PartialEq)]
pub struct FiltrosAuditoria {
    pub tipo_evento: Option<String>,
    pub entidade_tipo: Option<String>,
    pub entidade_id: Option<String>,
    pub limite: Option<i64>,
    pub offset: Option<i64>,
}

} // verus!
