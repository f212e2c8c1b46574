//! Testes do motor de pacotes: exportação de uma pasta, importação com nome
//! marcado e identidades novas, e o documento `dados.json`.

use vaultcraft::backup::versao_mais_recente;
use vaultcraft::erro::ErroBackup;
use vaultcraft::modelo::Anexo;
use vaultcraft::modelo::Item;
use vaultcraft::modelo::Pasta;
use vaultcraft::modelo::TipoItem;
use vaultcraft::pacote::codificar_documento;
use vaultcraft::pacote::decodificar_documento;
use vaultcraft::pacote::exportar_pacote_pasta;
use vaultcraft::pacote::importar_pacote;
use vaultcraft::pacote::limpar_nome;
use vaultcraft::pacote::nome_arquivo_pacote;
use vaultcraft::pacote::AnexoPacote;
use vaultcraft::pacote::DocumentoPacote;
use vaultcraft::pacote::ItemPacote;

fn pasta_bills() -> Pasta {
    Pasta {
        id: "p-bills".to_string(),
        pasta_pai_id: None,
        nome: "Bills".to_string(),
        caminho: "/Bills".to_string(),
        criado_em: "2026-02-17T09:00:00Z".to_string(),
        atualizado_em: "2026-02-17T09:00:00Z".to_string(),
    }
}

fn item_rent() -> Item {
    Item {
        id: "i-rent".to_string(),
        pasta_id: "p-bills".to_string(),
        tipo: TipoItem::Nota,
        titulo: "Rent".to_string(),
        descricao: Some("aluguel".to_string()),
        conteudo_nota: Some("pagar dia 5".to_string()),
        data_vencimento: None,
        criado_em: "2026-02-17T09:00:00Z".to_string(),
        atualizado_em: "2026-02-17T09:00:00Z".to_string(),
        tags: Vec::new(),
        anexos: vec![Anexo {
            id: "a-lease".to_string(),
            item_id: Some("i-rent".to_string()),
            tarefa_id: None,
            nome_original: "lease.pdf".to_string(),
            caminho_interno: "a-lease/lease.pdf".to_string(),
            tamanho: 10,
            tipo_mime: "application/pdf".to_string(),
            hash_sha256: None,
            criado_em: "2026-02-17T09:00:00Z".to_string(),
        }],
    }
}

#[test]
fn exportacao_e_importacao_fazem_ida_e_volta() {
    let pasta = pasta_bills();
    let itens = vec![item_rent()];
    let lease = b"0123456789".to_vec();
    let anexos = vec![("a-lease/lease.pdf".to_string(), lease.clone())];

    let arquivo = exportar_pacote_pasta(
        &pasta,
        &itens,
        &anexos,
        "0.1.0",
        versao_mais_recente(),
        "2026-02-17T10:00:00Z",
    )
    .unwrap();

    let plano = importar_pacote(&arquivo, versao_mais_recente()).unwrap();
    assert_eq!(plano.pasta.nome, "Bills (importado)");
    assert_eq!(plano.pasta.pasta_pai_id, None);
    assert_eq!(plano.itens.len(), 1);
    let item = &plano.itens[0];
    assert_eq!(item.titulo, "Rent");
    assert_eq!(item.tipo, TipoItem::Nota);
    assert_eq!(item.descricao.as_deref(), Some("aluguel"));
    assert_eq!(item.conteudo_nota.as_deref(), Some("pagar dia 5"));
    assert_eq!(item.data_vencimento, None);
    assert_eq!(item.anexos.len(), 1);
    assert_eq!(item.anexos[0].nome_original, "lease.pdf");
    assert_eq!(item.anexos[0].tipo_mime, "application/pdf");
    assert_eq!(item.anexos[0].dados, lease);
    assert_eq!(
        item.anexos[0].hash_sha256,
        hex::encode(<sha2::Sha256 as sha2::Digest>::digest(&lease))
    );
}

#[test]
fn importar_duas_vezes_cria_pastas_isoladas() {
    // Importar o mesmo pacote duas vezes produz dois planos com o nome
    // marcado; nenhum plano carrega identidade do pacote, e as identidades
    // novas vêm do cofre de destino (aqui, dois UUIDs distintos).
    let pasta = pasta_bills();
    let itens = vec![item_rent()];
    let anexos = vec![("a-lease/lease.pdf".to_string(), b"0123456789".to_vec())];
    let arquivo = exportar_pacote_pasta(
        &pasta,
        &itens,
        &anexos,
        "0.1.0",
        versao_mais_recente(),
        "2026-02-17T10:00:00Z",
    )
    .unwrap();

    let plano1 = importar_pacote(&arquivo, versao_mais_recente()).unwrap();
    let plano2 = importar_pacote(&arquivo, versao_mais_recente()).unwrap();
    assert_eq!(plano1.pasta.nome, "Bills (importado)");
    assert_eq!(plano2.pasta.nome, "Bills (importado)");

    let id1 = uuid::Uuid::new_v4().to_string();
    let id2 = uuid::Uuid::new_v4().to_string();
    assert_ne!(id1, id2, "cada aplicação do plano recebe identidade nova");
}

#[test]
fn anexo_sem_entrada_no_pacote_e_pulado() {
    // Um anexo referido no documento mas sem entrada no arquivo não impede o
    // item: ele volta sem aquele anexo.
    let pasta = pasta_bills();
    let itens = vec![item_rent()];
    let anexos = Vec::new();
    let arquivo = exportar_pacote_pasta(
        &pasta,
        &itens,
        &anexos,
        "0.1.0",
        versao_mais_recente(),
        "2026-02-17T10:00:00Z",
    )
    .unwrap();

    let plano = importar_pacote(&arquivo, versao_mais_recente()).unwrap();
    assert_eq!(plano.itens.len(), 1);
    assert_eq!(plano.itens[0].titulo, "Rent");
    assert_eq!(plano.itens[0].anexos.len(), 0);
}

#[test]
fn importacao_respeita_porta_de_versao() {
    let pasta = pasta_bills();
    let arquivo = exportar_pacote_pasta(
        &pasta,
        &Vec::new(),
        &Vec::new(),
        "0.1.0",
        999,
        "2026-02-17T10:00:00Z",
    )
    .unwrap();

    match importar_pacote(&arquivo, 1) {
        Err(ErroBackup::VersaoIncompativel { encontrada, suportada }) => {
            assert_eq!(encontrada, 999);
            assert_eq!(suportada, 1);
        },
        outro => panic!("esperava VersaoIncompativel, veio {:?}", outro.map(|_| ())),
    }
}

#[test]
fn documento_faz_ida_e_volta() {
    let doc = DocumentoPacote {
        nome_pasta: "Contas \"2026\"".to_string(),
        pasta_pai_id: Some("pai-1".to_string()),
        itens: vec![
            ItemPacote {
                tipo: TipoItem::Checklist,
                titulo: "Tarefas".to_string(),
                descricao: None,
                conteudo_nota: None,
                data_vencimento: Some("2026-03-01".to_string()),
                anexos: vec![AnexoPacote {
                    nome_original: "lista\n.txt".to_string(),
                    caminho_interno: "x/lista.txt".to_string(),
                    tipo_mime: "text/plain".to_string(),
                }],
            },
            ItemPacote {
                tipo: TipoItem::Documento,
                titulo: "Contrato".to_string(),
                descricao: Some("descrição".to_string()),
                conteudo_nota: None,
                data_vencimento: None,
                anexos: Vec::new(),
            },
        ],
    };
    let bytes = codificar_documento(&doc);
    let devolta = decodificar_documento(&bytes).unwrap();
    assert_eq!(devolta, doc);
}

#[test]
fn documento_ilegivel_e_recusado() {
    assert_eq!(decodificar_documento(&b"{}".to_vec()), Err(ErroBackup::Formato));
    assert_eq!(decodificar_documento(&Vec::new()), Err(ErroBackup::Formato));
}

#[test]
fn nome_de_pacote_limpa_o_nome_da_pasta() {
    assert_eq!(limpar_nome("Minha Pasta (2026)!"), "Minha_Pasta__2026__");
    assert_eq!(limpar_nome("ja_limpo-123"), "ja_limpo-123");
    let nome = nome_arquivo_pacote("Contas/2026", "20260217_100000");
    assert_eq!(nome, "vaultcraft_pacote_Contas_2026_20260217_100000.vaultbackup");
}

#[test]
fn tipo_de_item_le_os_tres_nomes() {
    assert_eq!(TipoItem::de_str("nota"), TipoItem::Nota);
    assert_eq!(TipoItem::de_str("documento"), TipoItem::Documento);
    assert_eq!(TipoItem::de_str("checklist"), TipoItem::Checklist);
    assert_eq!(TipoItem::de_str("desconhecido"), TipoItem::Nota);
}
