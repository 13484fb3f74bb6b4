//! User-visible text of the interface (French catalogue).

use vstd::prelude::*;

verus! {

/// Keys of the translated messages.
#[derive(Clone, Copy, Debug, PartialEq, Eq, Structural)]
pub enum Msg {
    ConnectPassword,
    ConnectUsername,
    ConnectRoomCode,
    ConnectPasswordPlaceholder,
    ConnectUsernamePlaceholder,
    ConnectRoomCodePlaceholder,
    ConnectJoin,
    ConnectCreate,
    ConnectCancel,
    InviteCopyLink,
    InviteCopyCode,
    FileTreeTitle,
    FileTreeUntitled,
    FileTreeInstrumentalOf,
    FileTreeGroupVideos,
    FileTreeGroupBands,
    FileTreeGroupAudios,
    FileTreeMenuAddVideo,
    FileTreeMenuAddAudio,
    FileTreeMenuUse,
    FileTreeMenuMakeDefault,
    FileTreeMenuDissociateProxy,
    FileTreeMenuRestoreLink,
    FileTreeMenuRecreateProxy,
    FileTreeMenuCreateProxy,
    FileTreeMenuAssociateProxy,
    FileTreeMenuRename,
    FileTreeMenuRemove,
    FileTreeMenuSetSyllableLanguage,
    FileTreeMenuSetInstrumental,
    FileTreeMenuDelete,
    FileTreeMenuNoEligibleVideo,
    FileTreeMenuNone,
    ComicSettingsFont,
    ComicSettingsBubbleDuration,
    ComicSettingsPageDuration,
    ComicSettingsDefaultTextSize,
    SettingsSave,
    SettingsDefaultFont,
    ProjectSettingsClose,
    AccessibilitySelected,
    MediaExplorerTitle,
    MediaExplorerTabVideos,
    MediaExplorerTabAudios,
    MediaExplorerTabRythmoBands,
    MediaExplorerVideoOriginal,
    MediaExplorerVideoProxy,
    MediaExplorerUse,
    MediaExplorerMakeDefault,
    MediaExplorerUnlink,
    MediaExplorerDelete,
    MediaExplorerVideoAdd,
    MediaExplorerVideoCreateProxy,
    MediaExplorerActive,
    MediaExplorerDefault,
    MediaExplorerAudioAssign,
    MediaExplorerAudioRemove,
    LanguagesName,
    LanguagesAdd,
    LanguagesRename,
    LanguagesSelect,
    LanguagesInstrumental,
    LanguagesDelete,
    LanguagesSyllables,
    LanguagesSyllablesFrench,
    LanguagesSyllablesEnglish,
    LanguagesSyllablesSpanish,
    LanguagesClearInstrumental,
    A11yPositionOf,
    A11yProject,
    A11yGroup,
    A11yOneItem,
    A11yManyItems,
    A11yVideoProxy,
    A11yVideoProxySeparator,
    A11yVideoSource,
    A11yIsProxy,
    BadgeProxy,
    BadgeDefault,
    BadgeHasProxy,
    A11yActive,
    A11yMissing,
    A11yBand,
    A11yOriginalAudio,
    A11yAudio,
    A11yInstrumental,
    AccessibilityExpanded,
    AccessibilityCollapsed,
    FileTreeRename,
    FileTreeOriginalAudio,
}

/// The text shown for `msg`.
pub open spec fn msg_text(msg: Msg) -> Seq<char> {
    match msg {
        Msg::ConnectPassword => "Mot de passe"@,
        Msg::ConnectUsername => "Nom d'utilisateur"@,
        Msg::ConnectRoomCode => "Code du salon"@,
        Msg::ConnectPasswordPlaceholder => "Facultatif"@,
        Msg::ConnectUsernamePlaceholder => "Votre nom"@,
        Msg::ConnectRoomCodePlaceholder => "ABCD"@,
        Msg::ConnectJoin => "Rejoindre"@,
        Msg::ConnectCreate => "Créer"@,
        Msg::ConnectCancel => "Annuler"@,
        Msg::InviteCopyLink => "Copier le lien"@,
        Msg::InviteCopyCode => "Copier le code"@,
        Msg::FileTreeTitle => "Fichiers du projet"@,
        Msg::FileTreeUntitled => "Sans titre"@,
        Msg::FileTreeInstrumentalOf => "Instrumental de"@,
        Msg::FileTreeGroupVideos => "Vidéos"@,
        Msg::FileTreeGroupBands => "Bandes rythmo"@,
        Msg::FileTreeGroupAudios => "Audios"@,
        Msg::FileTreeMenuAddVideo => "Ajouter une vidéo"@,
        Msg::FileTreeMenuAddAudio => "Ajouter un audio"@,
        Msg::FileTreeMenuUse => "Utiliser"@,
        Msg::FileTreeMenuMakeDefault => "Définir par défaut"@,
        Msg::FileTreeMenuDissociateProxy => "Dissocier le proxy"@,
        Msg::FileTreeMenuRestoreLink => "Restaurer le lien"@,
        Msg::FileTreeMenuRecreateProxy => "Recréer le proxy"@,
        Msg::FileTreeMenuCreateProxy => "Créer un proxy"@,
        Msg::FileTreeMenuAssociateProxy => "Associer en tant que proxy de"@,
        Msg::FileTreeMenuRename => "Renommer"@,
        Msg::FileTreeMenuRemove => "Retirer"@,
        Msg::FileTreeMenuSetSyllableLanguage => "Définir la langue de découpe"@,
        Msg::FileTreeMenuSetInstrumental => "Définir l'instrumental"@,
        Msg::FileTreeMenuDelete => "Supprimer"@,
        Msg::FileTreeMenuNoEligibleVideo => "Aucune vidéo éligible"@,
        Msg::FileTreeMenuNone => "Aucun"@,
        Msg::ComicSettingsFont => "Police"@,
        Msg::ComicSettingsBubbleDuration => "Durée d'une bulle"@,
        Msg::ComicSettingsPageDuration => "Durée d'une page"@,
        Msg::ComicSettingsDefaultTextSize => "Taille du texte par défaut"@,
        Msg::SettingsSave => "Enregistrer"@,
        Msg::SettingsDefaultFont => "Police par défaut"@,
        Msg::ProjectSettingsClose => "Fermer"@,
        Msg::AccessibilitySelected => "sélectionné"@,
        Msg::MediaExplorerTitle => "Médias du projet"@,
        Msg::MediaExplorerTabVideos => "Vidéos"@,
        Msg::MediaExplorerTabAudios => "Audios"@,
        Msg::MediaExplorerTabRythmoBands => "Bandes rythmo"@,
        Msg::MediaExplorerVideoOriginal => "Vidéo originale"@,
        Msg::MediaExplorerVideoProxy => "Proxy"@,
        Msg::MediaExplorerUse => "Utiliser"@,
        Msg::MediaExplorerMakeDefault => "Définir par défaut"@,
        Msg::MediaExplorerUnlink => "Retirer"@,
        Msg::MediaExplorerDelete => "Supprimer"@,
        Msg::MediaExplorerVideoAdd => "Ajouter une vidéo"@,
        Msg::MediaExplorerVideoCreateProxy => "Créer un proxy"@,
        Msg::MediaExplorerActive => "active"@,
        Msg::MediaExplorerDefault => "par défaut"@,
        Msg::MediaExplorerAudioAssign => "choisir l'instrumental"@,
        Msg::MediaExplorerAudioRemove => "retirer l'instrumental"@,
        Msg::LanguagesName => "Nom de la bande"@,
        Msg::LanguagesAdd => "Ajouter"@,
        Msg::LanguagesRename => "Renommer"@,
        Msg::LanguagesSelect => "Sélectionner"@,
        Msg::LanguagesInstrumental => "Choisir l'instrumental"@,
        Msg::LanguagesDelete => "Supprimer"@,
        Msg::LanguagesSyllables => "Langue de découpe"@,
        Msg::LanguagesSyllablesFrench => "Français"@,
        Msg::LanguagesSyllablesEnglish => "Anglais"@,
        Msg::LanguagesSyllablesSpanish => "Espagnol"@,
        Msg::LanguagesClearInstrumental => "Retirer l'instrumental"@,
        Msg::A11yPositionOf => " sur "@,
        Msg::A11yProject => "Projet "@,
        Msg::A11yGroup => "Groupe "@,
        Msg::A11yOneItem => "1 élément"@,
        Msg::A11yManyItems => " éléments"@,
        Msg::A11yVideoProxy => "Proxy de "@,
        Msg::A11yVideoProxySeparator => " : "@,
        Msg::A11yVideoSource => "Vidéo "@,
        Msg::A11yIsProxy => "proxy"@,
        Msg::BadgeProxy => "proxy"@,
        Msg::BadgeDefault => "par défaut"@,
        Msg::BadgeHasProxy => "avec proxy"@,
        Msg::A11yActive => "active"@,
        Msg::A11yMissing => "introuvable"@,
        Msg::A11yBand => "Bande rythmo "@,
        Msg::A11yOriginalAudio => "Audio de la vidéo originale"@,
        Msg::A11yAudio => "Audio "@,
        Msg::A11yInstrumental => "Instrumental de "@,
        Msg::AccessibilityExpanded => "développé"@,
        Msg::AccessibilityCollapsed => "réduit"@,
        Msg::FileTreeRename => "Renommer"@,
        Msg::FileTreeOriginalAudio => "Audio de la vidéo originale"@,
    }
}

/// The text shown for `msg`.
pub fn t(msg: Msg) -> (r: &'static str)
    ensures
        r@ == msg_text(msg),
{
    match msg {
        Msg::ConnectPassword => "Mot de passe",
        Msg::ConnectUsername => "Nom d'utilisateur",
        Msg::ConnectRoomCode => "Code du salon",
        Msg::ConnectPasswordPlaceholder => "Facultatif",
        Msg::ConnectUsernamePlaceholder => "Votre nom",
        Msg::ConnectRoomCodePlaceholder => "ABCD",
        Msg::ConnectJoin => "Rejoindre",
        Msg::ConnectCreate => "Créer",
        Msg::ConnectCancel => "Annuler",
        Msg::InviteCopyLink => "Copier le lien",
        Msg::InviteCopyCode => "Copier le code",
        Msg::FileTreeTitle => "Fichiers du projet",
        Msg::FileTreeUntitled => "Sans titre",
        Msg::FileTreeInstrumentalOf => "Instrumental de",
        Msg::FileTreeGroupVideos => "Vidéos",
        Msg::FileTreeGroupBands => "Bandes rythmo",
        Msg::FileTreeGroupAudios => "Audios",
        Msg::FileTreeMenuAddVideo => "Ajouter une vidéo",
        Msg::FileTreeMenuAddAudio => "Ajouter un audio",
        Msg::FileTreeMenuUse => "Utiliser",
        Msg::FileTreeMenuMakeDefault => "Définir par défaut",
        Msg::FileTreeMenuDissociateProxy => "Dissocier le proxy",
        Msg::FileTreeMenuRestoreLink => "Restaurer le lien",
        Msg::FileTreeMenuRecreateProxy => "Recréer le proxy",
        Msg::FileTreeMenuCreateProxy => "Créer un proxy",
        Msg::FileTreeMenuAssociateProxy => "Associer en tant que proxy de",
        Msg::FileTreeMenuRename => "Renommer",
        Msg::FileTreeMenuRemove => "Retirer",
        Msg::FileTreeMenuSetSyllableLanguage => "Définir la langue de découpe",
        Msg::FileTreeMenuSetInstrumental => "Définir l'instrumental",
        Msg::FileTreeMenuDelete => "Supprimer",
        Msg::FileTreeMenuNoEligibleVideo => "Aucune vidéo éligible",
        Msg::FileTreeMenuNone => "Aucun",
        Msg::ComicSettingsFont => "Police",
        Msg::ComicSettingsBubbleDuration => "Durée d'une bulle",
        Msg::ComicSettingsPageDuration => "Durée d'une page",
        Msg::ComicSettingsDefaultTextSize => "Taille du texte par défaut",
        Msg::SettingsSave => "Enregistrer",
        Msg::SettingsDefaultFont => "Police par défaut",
        Msg::ProjectSettingsClose => "Fermer",
        Msg::AccessibilitySelected => "sélectionné",
        Msg::MediaExplorerTitle => "Médias du projet",
        Msg::MediaExplorerTabVideos => "Vidéos",
        Msg::MediaExplorerTabAudios => "Audios",
        Msg::MediaExplorerTabRythmoBands => "Bandes rythmo",
        Msg::MediaExplorerVideoOriginal => "Vidéo originale",
        Msg::MediaExplorerVideoProxy => "Proxy",
        Msg::MediaExplorerUse => "Utiliser",
        Msg::MediaExplorerMakeDefault => "Définir par défaut",
        Msg::MediaExplorerUnlink => "Retirer",
        Msg::MediaExplorerDelete => "Supprimer",
        Msg::MediaExplorerVideoAdd => "Ajouter une vidéo",
        Msg::MediaExplorerVideoCreateProxy => "Créer un proxy",
        Msg::MediaExplorerActive => "active",
        Msg::MediaExplorerDefault => "par défaut",
        Msg::MediaExplorerAudioAssign => "choisir l'instrumental",
        Msg::MediaExplorerAudioRemove => "retirer l'instrumental",
        Msg::LanguagesName => "Nom de la bande",
        Msg::LanguagesAdd => "Ajouter",
        Msg::LanguagesRename => "Renommer",
        Msg::LanguagesSelect => "Sélectionner",
        Msg::LanguagesInstrumental => "Choisir l'instrumental",
        Msg::LanguagesDelete => "Supprimer",
        Msg::LanguagesSyllables => "Langue de découpe",
        Msg::LanguagesSyllablesFrench => "Français",
        Msg::LanguagesSyllablesEnglish => "Anglais",
        Msg::LanguagesSyllablesSpanish => "Espagnol",
        Msg::LanguagesClearInstrumental => "Retirer l'instrumental",
        Msg::A11yPositionOf => " sur ",
        Msg::A11yProject => "Projet ",
        Msg::A11yGroup => "Groupe ",
        Msg::A11yOneItem => "1 élément",
        Msg::A11yManyItems => " éléments",
        Msg::A11yVideoProxy => "Proxy de ",
        Msg::A11yVideoProxySeparator => " : ",
        Msg::A11yVideoSource => "Vidéo ",
        Msg::A11yIsProxy => "proxy",
        Msg::BadgeProxy => "proxy",
        Msg::BadgeDefault => "par défaut",
        Msg::BadgeHasProxy => "avec proxy",
        Msg::A11yActive => "active",
        Msg::A11yMissing => "introuvable",
        Msg::A11yBand => "Bande rythmo ",
        Msg::A11yOriginalAudio => "Audio de la vidéo originale",
        Msg::A11yAudio => "Audio ",
        Msg::A11yInstrumental => "Instrumental de ",
        Msg::AccessibilityExpanded => "développé",
        Msg::AccessibilityCollapsed => "réduit",
        Msg::FileTreeRename => "Renommer",
        Msg::FileTreeOriginalAudio => "Audio de la vidéo originale",
    }
}

} // verus!
